//! `CLIENT SETNAME name`.

use crate::cmd::parse::{first_string, tail, CommandError, CommandErrorView, Parse};
use crate::frame::grammar::FrameView;
use crate::frame::Frame;
use crate::supervisor::{
    changed, ConnectionChange, ConnectionChangeView, MetadataConnectionView, Supervisor,
};
use crate::text::text_bytes;
use vstd::prelude::*;

verus! {

/// Gives the connection a name, which `CLIENT LIST` shows.
#[derive(Debug, Default)]
pub struct ClientSetName {
    name: String,
}

impl View for ClientSetName {
    type V = Seq<char>;

    closed spec fn view(&self) -> Seq<char> {
        self.name@
    }
}

/// What the elements after `CLIENT SETNAME` ask for, and the elements that
/// are left.
pub open spec fn set_name_of(rest: Seq<FrameView>) -> Result<
    (Seq<char>, Seq<FrameView>),
    CommandErrorView,
> {
    match first_string(rest) {
        Ok(name) => Ok((name, tail(rest))),
        Err(e) => Err(CommandErrorView::Protocol(e)),
    }
}

impl ClientSetName {
    /// Creates a `ClientSetName` command for `name`.
    pub fn new(name: String) -> (set_name: ClientSetName)
        ensures
            set_name@ == name@,
    {
        ClientSetName { name }
    }

    /// The name to give.
    pub fn name(&self) -> (name: &String)
        ensures
            name@ == self@,
    {
        &self.name
    }

    /// Reads the elements that follow `CLIENT SETNAME`.
    pub fn parse_frames(parse: &mut Parse) -> (r: Result<ClientSetName, CommandError>)
        ensures
            match set_name_of(old(parse).remaining()) {
                Ok((name, left)) => r is Ok && r->Ok_0@ == name && final(parse).remaining()
                    == left,
                Err(e) => r is Err && r->Err_0@ == e,
            },
    {
        match parse.next_string() {
            Ok(name) => Ok(ClientSetName::new(name)),
            Err(e) => Err(CommandError::Protocol(e)),
        }
    }
}

/// The registry after the connection with the given id was named.
pub open spec fn after_set_name(
    connections: Map<u64, MetadataConnectionView>,
    id: u64,
    name: Seq<char>,
) -> Map<u64, MetadataConnectionView> {
    if connections.contains_key(id) {
        connections.insert(id, changed(connections[id], ConnectionChangeView::Rename(name)))
    } else {
        connections
    }
}

/// The answer to `CLIENT SETNAME`.
pub open spec fn set_name_reply() -> FrameView {
    FrameView::Simple(text_bytes("OK"@))
}

impl ClientSetName {
    /// Names the connection with the given id and answers `OK`.
    pub fn apply(self, supervisor: &mut Supervisor, id: u64) -> (reply: Frame)
        ensures
            reply@ == set_name_reply(),
            final(supervisor).connections() == after_set_name(
                old(supervisor).connections(),
                id,
                self@,
            ),
            final(supervisor).counter() == old(supervisor).counter(),
    {
        let _ = supervisor.change_connection(id, ConnectionChange::Rename(self.name));
        Frame::simple("OK")
    }
}

} // verus!
