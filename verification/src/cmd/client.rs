//! The `CLIENT` commands.

use crate::cmd::client::get_name::{get_name_reply, ClientGetName};
use crate::cmd::client::id::{client_id_reply, ClientID};
use crate::cmd::client::info::{client_info_reply, current_record, ClientInfo};
use crate::cmd::client::list::{is_client_list, list_of, ClientList, ClientListView, ClientType};
use crate::cmd::client::set_info::{
    set_info_of, set_info_reply, ClientSetInfo, ClientSetInfoView,
};
use crate::cmd::client::set_name::{
    after_set_name, set_name_of, set_name_reply, ClientSetName,
};
use crate::cmd::hello::simple_of;
use crate::cmd::parse::{
    first_string, tail, CommandError, CommandErrorView, Parse, ParseError, ParseErrorView,
};
use crate::cmd::unknown::Unknown;
use crate::cmd::{finish_with, outcome, Command, CommandView, SubcommandRegistry};
use crate::frame::grammar::FrameView;
use crate::frame::{lemma_view_of_collections, Frame};
use crate::supervisor::{MetadataConnection, MetadataConnectionView, Supervisor};
use crate::text::{is_text, lowercase, to_lowercase};
use vstd::prelude::*;

pub mod get_name;
pub mod id;
pub mod info;
pub mod list;
pub mod set_info;
pub mod set_name;

verus! {

/// The `CLIENT` commands that the server knows.
#[derive(Debug)]
pub enum Client {
    Help,
    SetInfo(ClientSetInfo),
    SetName(ClientSetName),
    List(ClientList),
    Id(ClientID),
    Info(ClientInfo),
    GetName(ClientGetName),
}

/// The mathematical value of a [`Client`].
pub enum ClientView {
    Help,
    SetInfo(ClientSetInfoView),
    SetName(Seq<char>),
    List(ClientListView),
    Id,
    Info,
    GetName,
}

impl View for Client {
    type V = ClientView;

    open spec fn view(&self) -> ClientView {
        match self {
            Client::Help => ClientView::Help,
            Client::SetInfo(info) => ClientView::SetInfo(info@),
            Client::SetName(name) => ClientView::SetName(name@),
            Client::List(list) => ClientView::List(list@),
            Client::Id(_) => ClientView::Id,
            Client::Info(_) => ClientView::Info,
            Client::GetName(_) => ClientView::GetName,
        }
    }
}

/// The command that the subcommand `lower`, in lower case, and the
/// elements after it stand for. A subcommand that is not known may carry
/// any arguments; a known one may carry no more than it reads.
pub open spec fn client_named(lower: Seq<char>, rest: Seq<FrameView>) -> Result<
    CommandView,
    CommandErrorView,
> {
    if lower == "setinfo"@ {
        match set_info_of(rest) {
            Ok(info) => finish_with(
                tail(tail(rest)),
                CommandView::Client(ClientView::SetInfo(info)),
            ),
            Err(e) => Err(e),
        }
    } else if lower == "setname"@ {
        match set_name_of(rest) {
            Ok((name, left)) => finish_with(left, CommandView::Client(ClientView::SetName(name))),
            Err(e) => Err(e),
        }
    } else if lower == "id"@ {
        finish_with(rest, CommandView::Client(ClientView::Id))
    } else if lower == "info"@ {
        finish_with(rest, CommandView::Client(ClientView::Info))
    } else if lower == "getname"@ {
        finish_with(rest, CommandView::Client(ClientView::GetName))
    } else if lower == "list"@ {
        match list_of(rest, ClientType::Normal, Seq::empty()) {
            Ok(list) => Ok(CommandView::Client(ClientView::List(list))),
            Err(e) => Err(e),
        }
    } else if lower == "help"@ {
        finish_with(rest, CommandView::Client(ClientView::Help))
    } else {
        Ok(CommandView::Unknown(lower))
    }
}

/// The command that the elements after `CLIENT` stand for: the help where
/// there is none.
pub open spec fn client_of(rest: Seq<FrameView>) -> Result<CommandView, CommandErrorView> {
    match first_string(rest) {
        Ok(name) => client_named(lowercase(name), tail(rest)),
        Err(ParseErrorView::EndOfStream) => Ok(CommandView::Client(ClientView::Help)),
        Err(e) => Err(CommandErrorView::Protocol(e)),
    }
}

impl Client {
    /// Reads the command of the subcommand `lower`, which is its name in
    /// lower case, from the elements that follow it.
    pub fn from_name(lower: String, parse: Parse) -> (r: Result<Command, CommandError>)
        ensures
            outcome(r) == client_named(lower@, parse.remaining()),
    {
        let mut parse = parse;
        let client = if is_text(&lower, "setinfo") {
            match ClientSetInfo::parse_frames(&mut parse) {
                Ok(info) => Client::SetInfo(info),
                Err(e) => {
                    return Err(e);
                },
            }
        } else if is_text(&lower, "setname") {
            match ClientSetName::parse_frames(&mut parse) {
                Ok(name) => Client::SetName(name),
                Err(e) => {
                    return Err(e);
                },
            }
        } else if is_text(&lower, "id") {
            match ClientID::parse_frames(&mut parse) {
                Ok(id) => Client::Id(id),
                Err(e) => {
                    return Err(e);
                },
            }
        } else if is_text(&lower, "info") {
            match ClientInfo::parse_frames(&mut parse) {
                Ok(info) => Client::Info(info),
                Err(e) => {
                    return Err(e);
                },
            }
        } else if is_text(&lower, "getname") {
            match ClientGetName::parse_frames(&mut parse) {
                Ok(get_name) => Client::GetName(get_name),
                Err(e) => {
                    return Err(e);
                },
            }
        } else if is_text(&lower, "list") {
            match ClientList::parse_frames(&mut parse) {
                Ok(list) => Client::List(list),
                Err(e) => {
                    return Err(e);
                },
            }
        } else if is_text(&lower, "help") {
            Client::Help
        } else {
            return Ok(Command::Unknown(Unknown::new(lower)));
        };
        match parse.finish() {
            Ok(()) => Ok(Command::Client(client)),
            Err(e) => Err(CommandError::Protocol(e)),
        }
    }
}

impl SubcommandRegistry for Client {
    open spec fn subcommand_of(rest: Seq<FrameView>) -> Result<CommandView, CommandErrorView> {
        client_of(rest)
    }

    fn from_parse(parse: Parse) -> (r: Result<Command, CommandError>) {
        let mut parse = parse;
        match parse.next_string() {
            Ok(name) => Client::from_name(to_lowercase(&name), parse),
            Err(ParseError::EndOfStream) => Ok(Command::Client(Client::Help)),
            Err(e) => Err(CommandError::Protocol(e)),
        }
    }
}

/// The answer to `CLIENT HELP`: the lines of the help, one item each.
pub open spec fn help_reply() -> FrameView {
    FrameView::Array(seq![
        simple_of("CLIENT <subcommand> [<arg> [value] [opt] ...]. subcommands are:"@),
        simple_of("ID"@),
        simple_of("    Return the ID of the current connection."@),
        simple_of("INFO"@),
        simple_of("    Return information about the current client connection."@),
        simple_of("LIST [options ...]"@),
        simple_of("    Return information about client connections. Options:"@),
        simple_of("    * TYPE (NORMAL|MASTER|REPLICA|PUBSUB)"@),
        simple_of("      Return clients of specified type."@),
        simple_of("SETNAME <name>"@),
        simple_of("    Assign the name <name> to the current connection."@),
        simple_of("SETINFO <option> <value>"@),
        simple_of("    Set client meta attr. Options are:"@),
        simple_of("    * LIB-NAME: the client lib name."@),
        simple_of("    * LIB-VER: the client lib version."@),
        simple_of("HELP"@),
        simple_of("    Print this help."@),
    ])
}

/// The answer of a `CLIENT` command on the connection that was accepted
/// as `accepted`, for the given registry.
pub open spec fn is_client_reply(
    client: ClientView,
    accepted: MetadataConnectionView,
    connections: Map<u64, MetadataConnectionView>,
    reply: FrameView,
) -> bool {
    match client {
        ClientView::Help => reply == help_reply(),
        ClientView::SetInfo(_) => reply == set_info_reply(),
        ClientView::SetName(_) => reply == set_name_reply(),
        ClientView::List(_) => is_client_list(connections, reply),
        ClientView::Id => reply == client_id_reply(accepted.id),
        ClientView::Info => reply == client_info_reply(current_record(connections, accepted)),
        ClientView::GetName => reply == get_name_reply(current_record(connections, accepted)),
    }
}

/// The registry after a `CLIENT` command on the connection that was
/// accepted as `accepted`.
pub open spec fn connections_after(
    client: ClientView,
    accepted: MetadataConnectionView,
    connections: Map<u64, MetadataConnectionView>,
) -> Map<u64, MetadataConnectionView> {
    match client {
        ClientView::SetName(name) => after_set_name(connections, accepted.id, name),
        _ => connections,
    }
}

impl Client {
    /// The help of the `CLIENT` commands.
    pub fn help() -> (reply: Frame)
        ensures
            reply@ == help_reply(),
    {
        let mut lines: Vec<Frame> = Vec::new();
        lines.push(Frame::simple("CLIENT <subcommand> [<arg> [value] [opt] ...]. subcommands are:"));
        lines.push(Frame::simple("ID"));
        lines.push(Frame::simple("    Return the ID of the current connection."));
        lines.push(Frame::simple("INFO"));
        lines.push(Frame::simple("    Return information about the current client connection."));
        lines.push(Frame::simple("LIST [options ...]"));
        lines.push(Frame::simple("    Return information about client connections. Options:"));
        lines.push(Frame::simple("    * TYPE (NORMAL|MASTER|REPLICA|PUBSUB)"));
        lines.push(Frame::simple("      Return clients of specified type."));
        lines.push(Frame::simple("SETNAME <name>"));
        lines.push(Frame::simple("    Assign the name <name> to the current connection."));
        lines.push(Frame::simple("SETINFO <option> <value>"));
        lines.push(Frame::simple("    Set client meta attr. Options are:"));
        lines.push(Frame::simple("    * LIB-NAME: the client lib name."));
        lines.push(Frame::simple("    * LIB-VER: the client lib version."));
        lines.push(Frame::simple("HELP"));
        lines.push(Frame::simple("    Print this help."));
        let reply = Frame::Array(lines);
        proof {
            lemma_view_of_collections(reply);
            assert(reply@->Array_0 =~= help_reply()->Array_0);
        }
        reply
    }

    /// Runs the command on the connection that was accepted as `accepted`.
    pub fn apply(self, supervisor: &mut Supervisor, accepted: &MetadataConnection) -> (reply: Frame)
        ensures
            is_client_reply(self@, accepted@, old(supervisor).connections(), reply@),
            final(supervisor).connections() == connections_after(
                self@,
                accepted@,
                old(supervisor).connections(),
            ),
            final(supervisor).counter() == old(supervisor).counter(),
    {
        match self {
            Client::Help => Client::help(),
            Client::SetInfo(cmd) => cmd.apply(),
            Client::SetName(cmd) => cmd.apply(supervisor, accepted.id()),
            Client::Id(cmd) => cmd.apply(accepted.id()),
            Client::Info(cmd) => cmd.apply(supervisor, accepted),
            Client::GetName(cmd) => cmd.apply(supervisor, accepted),
            Client::List(cmd) => cmd.apply(supervisor),
        }
    }
}

} // verus!
