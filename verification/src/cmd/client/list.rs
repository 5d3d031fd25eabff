//! `CLIENT LIST [TYPE type] [ID id ...]`.

use crate::cmd::parse::{
    first_int, first_string, tail, CommandError, CommandErrorView, Parse, ParseError,
    ParseErrorView,
};
use crate::frame::grammar::FrameView;
use crate::frame::{lemma_view_of_collections, Frame};
use crate::supervisor::{
    conn_line, holds_record, is_listed, is_registered, MetadataConnectionView, Supervisor,
};
use crate::text::{string_bytes, text_bytes};
use crate::text::{is_text, lowercase, to_lowercase};
use vstd::prelude::*;
use vstd::string::*;

verus! {

/// The kinds of clients that `CLIENT LIST` can be asked for.
#[derive(Debug, Default, Clone, Copy, PartialEq, Eq, Structural)]
pub enum ClientType {
    #[default]
    Normal,
    Replica,
    Master,
    Pubsub,
}

/// The filters that `CLIENT LIST` knows.
#[derive(Debug, Clone, Copy, PartialEq, Eq, Structural)]
pub enum ClientFilter {
    /// `TYPE`: only the clients of one kind.
    Kind,
    /// `ID`: only the clients with one of the ids that follow.
    Ids,
}

/// Asks for information about the client connections of the server.
#[derive(Debug, Default)]
pub struct ClientList {
    kind: ClientType,
    ids: Option<Vec<u64>>,
}

/// The mathematical value of a [`ClientList`].
pub struct ClientListView {
    pub kind: ClientType,
    pub ids: Option<Seq<u64>>,
}

impl View for ClientList {
    type V = ClientListView;

    closed spec fn view(&self) -> ClientListView {
        ClientListView {
            kind: self.kind,
            ids: match self.ids {
                Some(ids) => Some(ids@),
                None => None,
            },
        }
    }
}

pub open spec fn unknown_client_type() -> Seq<char> {
    "Unknown client type, should be either normal / replica / master / pubsub."@
}

/// The text that refuses a filter; `lower` is its name in lower case.
pub open spec fn unknown_filter(lower: Seq<char>) -> Seq<char> {
    "Unknown filter type '"@ + lower + "'"@
}

/// The kind of client that a name, in lower case, stands for.
pub open spec fn client_type_of(lower: Seq<char>) -> Option<ClientType> {
    if lower == "normal"@ {
        Some(ClientType::Normal)
    } else if lower == "replica"@ {
        Some(ClientType::Replica)
    } else if lower == "master"@ {
        Some(ClientType::Master)
    } else if lower == "pubsub"@ {
        Some(ClientType::Pubsub)
    } else {
        None
    }
}

/// The filter that a name, in lower case, stands for.
pub open spec fn client_filter_of(lower: Seq<char>) -> Option<ClientFilter> {
    if lower == "type"@ {
        Some(ClientFilter::Kind)
    } else if lower == "id"@ {
        Some(ClientFilter::Ids)
    } else {
        None
    }
}

/// The kind that the element after `TYPE` asks for: the normal kind where
/// there is none.
pub open spec fn kind_of(rest: Seq<FrameView>) -> Result<ClientType, CommandErrorView> {
    match first_string(rest) {
        Ok(name) => match client_type_of(lowercase(name)) {
            Some(kind) => Ok(kind),
            None => Err(CommandErrorView::Application(unknown_client_type())),
        },
        Err(ParseErrorView::EndOfStream) => Ok(ClientType::Normal),
        Err(e) => Err(CommandErrorView::Protocol(e)),
    }
}

/// The ids that follow `ID`, after those in `ids`: every element up to the
/// end has to be a number.
pub open spec fn ids_of(rest: Seq<FrameView>, ids: Seq<u64>) -> Result<Seq<u64>, CommandErrorView>
    decreases rest.len(),
{
    match first_int(rest) {
        Ok(id) => ids_of(tail(rest), ids.push(id)),
        Err(ParseErrorView::EndOfStream) => Ok(ids),
        Err(e) => Err(CommandErrorView::Protocol(e)),
    }
}

/// What the elements after `CLIENT LIST` ask for, starting from the kind
/// and the ids that earlier filters gave.
pub open spec fn list_of(rest: Seq<FrameView>, kind: ClientType, ids: Seq<u64>) -> Result<
    ClientListView,
    CommandErrorView,
>
    decreases rest.len(),
{
    match first_string(rest) {
        Err(ParseErrorView::EndOfStream) => Ok(ClientListView { kind, ids: Some(ids) }),
        Err(e) => Err(CommandErrorView::Protocol(e)),
        Ok(filter) => {
            let lower = lowercase(filter);
            let args = tail(rest);
            match client_filter_of(lower) {
                Some(ClientFilter::Kind) => match kind_of(args) {
                    Ok(kind) => list_of(tail(args), kind, ids),
                    Err(e) => Err(e),
                },
                Some(ClientFilter::Ids) => match ids_of(args, ids) {
                    Ok(ids) => Ok(ClientListView { kind, ids: Some(ids) }),
                    Err(e) => Err(e),
                },
                None => Err(CommandErrorView::Application(unknown_filter(lower))),
            }
        },
    }
}

impl ClientType {
    /// The kind of client that a name, in lower case, stands for.
    pub fn from_name(lower: &String) -> (kind: Option<ClientType>)
        ensures
            kind == client_type_of(lower@),
    {
        if is_text(lower, "normal") {
            Some(ClientType::Normal)
        } else if is_text(lower, "replica") {
            Some(ClientType::Replica)
        } else if is_text(lower, "master") {
            Some(ClientType::Master)
        } else if is_text(lower, "pubsub") {
            Some(ClientType::Pubsub)
        } else {
            None
        }
    }
}

impl ClientFilter {
    /// The filter that a name, in lower case, stands for.
    pub fn from_name(lower: &String) -> (filter: Option<ClientFilter>)
        ensures
            filter == client_filter_of(lower@),
    {
        if is_text(lower, "type") {
            Some(ClientFilter::Kind)
        } else if is_text(lower, "id") {
            Some(ClientFilter::Ids)
        } else {
            None
        }
    }
}

impl ClientList {
    /// Creates a `ClientList` command.
    pub fn new(ty: ClientType, ids: Option<Vec<u64>>) -> (list: ClientList)
        ensures
            list@.kind == ty,
            list@.ids == match ids {
                Some(ids) => Some(ids@),
                None => None,
            },
    {
        ClientList { kind: ty, ids }
    }

    /// The kind of clients that is asked for.
    pub fn kind(&self) -> (kind: ClientType)
        ensures
            kind == self@.kind,
    {
        self.kind
    }

    /// The ids that are asked for, if the list is filtered by id.
    pub fn ids(&self) -> (ids: &Option<Vec<u64>>)
        ensures
            self@.ids == match *ids {
                Some(ids) => Some(ids@),
                None => None,
            },
    {
        &self.ids
    }

    /// Reads the kind that follows `TYPE`.
    pub fn read_kind(parse: &mut Parse) -> (r: Result<ClientType, CommandError>)
        ensures
            final(parse).remaining() == tail(old(parse).remaining()),
            match kind_of(old(parse).remaining()) {
                Ok(kind) => r == Ok::<ClientType, CommandError>(kind),
                Err(e) => r is Err && r->Err_0@ == e,
            },
    {
        match parse.next_string() {
            Ok(name) => {
                let lower = to_lowercase(&name);
                match ClientType::from_name(&lower) {
                    Some(kind) => Ok(kind),
                    None => Err(
                        CommandError::Application(
                            String::from_str(
                                "Unknown client type, should be either normal / replica / master / pubsub.",
                            ),
                        ),
                    ),
                }
            },
            Err(ParseError::EndOfStream) => Ok(ClientType::Normal),
            Err(e) => Err(CommandError::Protocol(e)),
        }
    }

    /// Reads the ids that follow `ID`, up to the end of the command, and
    /// appends them to `ids`.
    pub fn read_ids(parse: &mut Parse, ids: &mut Vec<u64>) -> (r: Result<(), CommandError>)
        ensures
            match ids_of(old(parse).remaining(), old(ids)@) {
                Ok(all) => r is Ok && final(ids)@ == all && final(parse).remaining().len() == 0,
                Err(e) => r is Err && r->Err_0@ == e,
            },
    {
        loop
            invariant
                ids_of(old(parse).remaining(), old(ids)@) == ids_of(parse.remaining(), ids@),
            decreases parse.remaining().len(),
        {
            match parse.next_int() {
                Ok(id) => {
                    ids.push(id);
                },
                Err(ParseError::EndOfStream) => {
                    return Ok(());
                },
                Err(e) => {
                    return Err(CommandError::Protocol(e));
                },
            }
        }
    }

    /// Reads the elements that follow `CLIENT LIST`.
    pub fn parse_frames(parse: &mut Parse) -> (r: Result<ClientList, CommandError>)
        ensures
            match list_of(old(parse).remaining(), ClientType::Normal, Seq::empty()) {
                Ok(list) => r is Ok && r->Ok_0@ == list && final(parse).remaining().len() == 0,
                Err(e) => r is Err && r->Err_0@ == e,
            },
    {
        let mut ty = ClientType::Normal;
        let mut ids: Vec<u64> = Vec::new();
        loop
            invariant
                list_of(old(parse).remaining(), ClientType::Normal, Seq::empty()) == list_of(
                    parse.remaining(),
                    ty,
                    ids@,
                ),
            decreases parse.remaining().len(),
        {
            let filter = match parse.next_string() {
                Ok(filter) => filter,
                Err(ParseError::EndOfStream) => {
                    return Ok(ClientList::new(ty, Some(ids)));
                },
                Err(e) => {
                    return Err(CommandError::Protocol(e));
                },
            };
            let lower = to_lowercase(&filter);
            match ClientFilter::from_name(&lower) {
                Some(ClientFilter::Kind) => {
                    match ClientList::read_kind(parse) {
                        Ok(kind) => {
                            ty = kind;
                        },
                        Err(e) => {
                            return Err(e);
                        },
                    }
                },
                Some(ClientFilter::Ids) => {
                    match ClientList::read_ids(parse, &mut ids) {
                        Ok(()) => {
                            return Ok(ClientList::new(ty, Some(ids)));
                        },
                        Err(e) => {
                            return Err(e);
                        },
                    }
                },
                None => {
                    let mut text = String::from_str("Unknown filter type '");
                    text.append(lower.as_str());
                    text.append("'");
                    return Err(CommandError::Application(text));
                },
            }
        }
    }
}

/// The line of a connection as an item of the answer to `CLIENT LIST`.
pub open spec fn list_item(connection: MetadataConnectionView) -> FrameView {
    FrameView::Simple(text_bytes(conn_line(connection)))
}

/// The item is the line of an open connection of the normal kind.
pub open spec fn is_line_of_listed(
    connections: Map<u64, MetadataConnectionView>,
    item: FrameView,
) -> bool {
    exists|id: u64|
        #![trigger connections[id]]
        connections.contains_key(id) && is_listed(connections[id]) && list_item(connections[id])
            == item
}

/// The line of the connection is among the items.
pub open spec fn has_line(items: Seq<FrameView>, connection: MetadataConnectionView) -> bool {
    exists|i: int| 0 <= i < items.len() && #[trigger] items[i] == list_item(connection)
}

/// `reply` answers `CLIENT LIST` for the given registry: an array that
/// holds the line of every open connection of the normal kind and nothing
/// else, in any order.
pub open spec fn is_client_list(
    connections: Map<u64, MetadataConnectionView>,
    reply: FrameView,
) -> bool {
    &&& reply is Array
    &&& forall|i: int|
        0 <= i < reply->Array_0.len() ==> is_line_of_listed(
            connections,
            #[trigger] reply->Array_0[i],
        )
    &&& forall|id: u64|
        connections.contains_key(id) && is_listed(#[trigger] connections[id]) ==> has_line(
            reply->Array_0,
            connections[id],
        )
}

impl ClientList {
    /// Answers the command: a line for every open connection of the normal
    /// kind. The filters of the command are not looked at yet.
    pub fn apply(self, supervisor: &Supervisor) -> (reply: Frame)
        ensures
            is_client_list(supervisor.connections(), reply@),
    {
        let connections = supervisor.get_normal_connection();
        let mut lines: Vec<Frame> = Vec::new();
        let mut i: usize = 0;
        while i < connections.len()
            invariant
                i <= connections.len(),
                lines@.len() == i,
                forall|j: int| 0 <= j < i ==> (#[trigger] lines@[j])@ == list_item(connections@[j]@),
            decreases connections.len() - i,
        {
            let line = connections[i].format_conn();
            lines.push(Frame::Simple(string_bytes(&line)));
            i = i + 1;
        }
        let reply = Frame::Array(lines);
        proof {
            lemma_view_of_collections(reply);
            let items = reply@->Array_0;
            let registry = supervisor.connections();
            assert forall|i: int| 0 <= i < items.len() implies is_line_of_listed(
                registry,
                #[trigger] items[i],
            ) by {
                assert(is_registered(registry, connections@[i]@));
                let id = choose|id: u64|
                    #[trigger] registry.contains_key(id) && registry[id] == connections@[i]@;
                assert(is_listed(connections@[i]@));
                assert(list_item(registry[id]) == items[i]);
            }
            assert forall|id: u64|
                registry.contains_key(id) && is_listed(#[trigger] registry[id]) implies has_line(
                items,
                registry[id],
            ) by {
                assert(holds_record(connections@, registry[id]));
                let i = choose|i: int|
                    0 <= i < connections@.len() && (#[trigger] connections@[i])@ == registry[id];
                assert(items[i] == list_item(registry[id]));
            }
        }
        reply
    }
}

} // verus!
