//! The commands of the server: what a frame asks for.

use crate::cmd::acl::cat::acl_cat_reply;
use crate::cmd::acl::{acl_of, Acl, AclView};
use crate::cmd::client::{client_of, connections_after, is_client_reply, Client, ClientView};
use crate::cmd::get::{get_of, get_reply, Get};
use crate::cmd::hello::{hello_reply, Hello};
use crate::cmd::parse::{
    expected_array, expected_end, first_string, tail, CommandError, CommandErrorView, Parse,
    ParseErrorView,
};
use crate::cmd::ping::{ping_of, ping_reply, Ping};
use crate::cmd::set::{deadline, set_of, set_reply, SetKey, SetKeyView};
use crate::cmd::unknown::{unknown_reply, Unknown};
use crate::context::Context;
use crate::frame::grammar::FrameView;
use crate::frame::Frame;
use crate::hash::spec_crc_hash;
use crate::storage::{after_get, after_set, lookup_in, StorageSegment};
use crate::supervisor::{MetadataConnection, MetadataConnectionView, Supervisor};
use crate::text::{is_text, lowercase, text_bytes, to_lowercase};
use vstd::prelude::*;

pub mod acl;
pub mod client;
pub mod get;
pub mod hello;
pub mod parse;
pub mod ping;
pub mod set;
pub mod unknown;

verus! {

/// The commands that the server knows.
#[derive(Debug)]
pub enum Command {
    Acl(Acl),
    Client(Client),
    Hello(Hello),
    Ping(Ping),
    SetKey(SetKey),
    Get(Get),
    Unknown(Unknown),
}

/// The mathematical value of a [`Command`].
pub enum CommandView {
    Acl(AclView),
    Client(ClientView),
    Hello,
    Ping(Option<Seq<u8>>),
    SetKey(SetKeyView),
    Get(Seq<char>),
    Unknown(Seq<char>),
}

impl View for Command {
    type V = CommandView;

    open spec fn view(&self) -> CommandView {
        match self {
            Command::Acl(acl) => CommandView::Acl(acl@),
            Command::Client(client) => CommandView::Client(client@),
            Command::Hello(_) => CommandView::Hello,
            Command::Ping(ping) => CommandView::Ping(ping@),
            Command::SetKey(set) => CommandView::SetKey(set@),
            Command::Get(get) => CommandView::Get(get@),
            Command::Unknown(unknown) => CommandView::Unknown(unknown@),
        }
    }
}

/// The mathematical value of what reading a command gave.
pub open spec fn outcome(r: Result<Command, CommandError>) -> Result<CommandView, CommandErrorView> {
    match r {
        Ok(command) => Ok(command@),
        Err(e) => Err(e@),
    }
}

/// The command, where no element is left after it; else the error that
/// says that there was more.
pub open spec fn finish_with(left: Seq<FrameView>, command: CommandView) -> Result<
    CommandView,
    CommandErrorView,
> {
    if left.len() == 0 {
        Ok(command)
    } else {
        Err(CommandErrorView::Protocol(ParseErrorView::Other(expected_end())))
    }
}

/// The command that the name `lower`, in lower case, and the elements
/// after it stand for. A name that is not known stands for the unknown
/// command, whatever follows it.
pub open spec fn command_named(lower: Seq<char>, rest: Seq<FrameView>) -> Result<
    CommandView,
    CommandErrorView,
> {
    if lower == "acl"@ {
        acl_of(rest)
    } else if lower == "client"@ {
        client_of(rest)
    } else if lower == "ping"@ {
        match ping_of(rest) {
            Ok((ping, left)) => finish_with(left, CommandView::Ping(ping)),
            Err(e) => Err(e),
        }
    } else if lower == "hello"@ {
        finish_with(rest, CommandView::Hello)
    } else if lower == "set"@ {
        match set_of(rest) {
            Ok((set, left)) => finish_with(left, CommandView::SetKey(set)),
            Err(e) => Err(e),
        }
    } else if lower == "get"@ {
        match get_of(rest) {
            Ok((key, left)) => finish_with(left, CommandView::Get(key)),
            Err(e) => Err(e),
        }
    } else {
        Ok(CommandView::Unknown(lower))
    }
}

/// The command that a frame stands for: an array whose first element is
/// the name of the command, in any case.
pub open spec fn command_of(frame: FrameView) -> Result<CommandView, CommandErrorView> {
    match frame {
        FrameView::Array(parts) => match first_string(parts) {
            Ok(name) => command_named(lowercase(name), tail(parts)),
            Err(e) => Err(CommandErrorView::Protocol(e)),
        },
        _ => Err(CommandErrorView::Protocol(ParseErrorView::Other(expected_array()))),
    }
}

/// The hash slot that a command has to run in; none for a command that can
/// run anywhere.
pub open spec fn routing_hash(command: CommandView) -> Option<u16> {
    match command {
        CommandView::Get(key) => Some(spec_crc_hash(text_bytes(key))),
        CommandView::SetKey(set) => Some(spec_crc_hash(text_bytes(set.key))),
        _ => None,
    }
}

/// A family of commands under one name.
pub trait SubcommandRegistry {
    /// The command that the elements after the name of the family stand for.
    spec fn subcommand_of(rest: Seq<FrameView>) -> Result<CommandView, CommandErrorView>;

    /// Reads a command of the family from what follows its name.
    fn from_parse(parse: Parse) -> (r: Result<Command, CommandError>)
        ensures
            outcome(r) == Self::subcommand_of(parse.remaining()),
    ;
}

impl Command {
    /// Reads the command of the name `lower`, which is in lower case, from
    /// the elements that follow the name.
    pub fn from_name(lower: String, parse: Parse) -> (r: Result<Command, CommandError>)
        ensures
            outcome(r) == command_named(lower@, parse.remaining()),
    {
        let mut parse = parse;
        let command = if is_text(&lower, "acl") {
            return Acl::from_parse(parse);
        } else if is_text(&lower, "client") {
            return Client::from_parse(parse);
        } else if is_text(&lower, "ping") {
            match Ping::parse_frames(&mut parse) {
                Ok(ping) => Command::Ping(ping),
                Err(e) => {
                    return Err(e);
                },
            }
        } else if is_text(&lower, "hello") {
            match Hello::parse_frames(&mut parse) {
                Ok(hello) => Command::Hello(hello),
                Err(e) => {
                    return Err(e);
                },
            }
        } else if is_text(&lower, "set") {
            match SetKey::parse_frames(&mut parse) {
                Ok(set) => Command::SetKey(set),
                Err(e) => {
                    return Err(e);
                },
            }
        } else if is_text(&lower, "get") {
            match Get::parse_frames(&mut parse) {
                Ok(get) => Command::Get(get),
                Err(e) => {
                    return Err(e);
                },
            }
        } else {
            return Ok(Command::Unknown(Unknown::new(lower)));
        };
        match parse.finish() {
            Ok(()) => Ok(command),
            Err(e) => Err(CommandError::Protocol(e)),
        }
    }

    /// Reads a command from a received frame.
    pub fn from_frame(frame: Frame) -> (r: Result<Command, CommandError>)
        ensures
            outcome(r) == command_of(frame@),
    {
        let mut parse = match Parse::new(frame) {
            Ok(parse) => parse,
            Err(e) => {
                return Err(CommandError::Protocol(e));
            },
        };
        match parse.next_string() {
            Ok(name) => Command::from_name(to_lowercase(&name), parse),
            Err(e) => Err(CommandError::Protocol(e)),
        }
    }

}

/// `reply` answers the command at the time `now` on the connection that
/// was accepted as `accepted`, for the given entries of the shard and the
/// given registry.
pub open spec fn is_reply(
    command: CommandView,
    accepted: MetadataConnectionView,
    now: u64,
    entries: Map<Seq<u8>, (Seq<u8>, Option<u64>)>,
    connections: Map<u64, MetadataConnectionView>,
    reply: FrameView,
) -> bool {
    match command {
        CommandView::Acl(_) => reply == acl_cat_reply(),
        CommandView::Client(client) => is_client_reply(client, accepted, connections, reply),
        CommandView::Hello => reply == hello_reply(accepted.id),
        CommandView::Ping(ping) => reply == ping_reply(ping),
        CommandView::SetKey(_) => reply == set_reply(),
        CommandView::Get(key) => reply == get_reply(lookup_in(entries, text_bytes(key), now)),
        CommandView::Unknown(name) => reply == unknown_reply(name),
    }
}

/// The entries of the shard after the command ran at the time `now`.
pub open spec fn entries_after(
    command: CommandView,
    now: u64,
    entries: Map<Seq<u8>, (Seq<u8>, Option<u64>)>,
) -> Map<Seq<u8>, (Seq<u8>, Option<u64>)> {
    match command {
        CommandView::Get(key) => after_get(entries, text_bytes(key), now),
        CommandView::SetKey(set) => after_set(
            entries,
            text_bytes(set.key),
            set.value,
            deadline(now, set.expire),
        ),
        _ => entries,
    }
}

/// The registry after the command ran on the connection that was accepted
/// as `accepted`.
pub open spec fn registry_after(
    command: CommandView,
    accepted: MetadataConnectionView,
    connections: Map<u64, MetadataConnectionView>,
) -> Map<u64, MetadataConnectionView> {
    match command {
        CommandView::Client(client) => connections_after(client, accepted, connections),
        _ => connections,
    }
}

/// What running a command at the time `now` does: the answer, and the
/// shard and the registry after it.
pub open spec fn runs_at(
    command: CommandView,
    now: u64,
    accepted: MetadataConnectionView,
    before: (StorageSegment, Supervisor),
    after: (StorageSegment, Supervisor),
    reply: FrameView,
) -> bool {
    &&& is_reply(command, accepted, now, before.0.entries(), before.1.connections(), reply)
    &&& after.0.entries() == entries_after(command, now, before.0.entries())
    &&& after.1.connections() == registry_after(command, accepted, before.1.connections())
    &&& after.0.slot() == before.0.slot()
    &&& after.1.counter() == before.1.counter()
}

/// A command that can run on a connection.
pub trait CommandExecution: Sized {
    /// The mathematical value of the command.
    spec fn command(&self) -> CommandView;

    /// Runs the command on the connection of `ctx`, at the time that the
    /// clock of `ctx` gives, and hands back the answer for the client.
    fn apply(self, ctx: &mut Context, storage: &mut StorageSegment, supervisor: &mut Supervisor) -> (reply:
        Frame)
        ensures
            final(ctx).accepted() == old(ctx).accepted(),
            final(ctx).routing() == old(ctx).routing(),
            exists|now: u64|
                runs_at(
                    self.command(),
                    now,
                    old(ctx).accepted()@,
                    (*old(storage), *old(supervisor)),
                    (*final(storage), *final(supervisor)),
                    reply@,
                ),
    ;

    /// The hash slot that the command has to run in; none for a command
    /// that can run anywhere.
    fn hash_key(&self) -> (hash: Option<u16>)
        ensures
            hash == routing_hash(self.command()),
    ;
}

impl Command {
    /// Runs the command at the time `now` on the connection that was
    /// accepted as `accepted`, and hands back the answer for the client.
    pub fn apply_at(
        self,
        now: u64,
        accepted: &MetadataConnection,
        storage: &mut StorageSegment,
        supervisor: &mut Supervisor,
    ) -> (reply: Frame)
        ensures
            runs_at(
                self@,
                now,
                accepted@,
                (*old(storage), *old(supervisor)),
                (*final(storage), *final(supervisor)),
                reply@,
            ),
    {
        match self {
            Command::Acl(cmd) => cmd.apply(),
            Command::Client(cmd) => cmd.apply(supervisor, accepted),
            Command::Hello(cmd) => cmd.apply(accepted.id()),
            Command::Ping(cmd) => cmd.apply(),
            Command::SetKey(cmd) => cmd.apply(storage, now),
            Command::Get(cmd) => cmd.apply(storage, now),
            Command::Unknown(cmd) => cmd.apply(),
        }
    }
}

impl CommandExecution for Command {
    open spec fn command(&self) -> CommandView {
        self@
    }

    fn apply(self, ctx: &mut Context, storage: &mut StorageSegment, supervisor: &mut Supervisor) -> (reply:
        Frame) {
        let now = ctx.now();
        let reply = self.apply_at(now, ctx.connection(), storage, supervisor);
        assert(runs_at(
            self.command(),
            now,
            old(ctx).accepted()@,
            (*old(storage), *old(supervisor)),
            (*storage, *supervisor),
            reply@,
        ));
        reply
    }

    fn hash_key(&self) -> (hash: Option<u16>) {
        match self {
            Command::Get(get) => get.hash_key(),
            Command::SetKey(set) => set.hash_key(),
            _ => None,
        }
    }
}

} // verus!
