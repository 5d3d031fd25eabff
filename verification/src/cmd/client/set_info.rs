//! `CLIENT SETINFO LIB-NAME|LIB-VER value`.

use crate::cmd::parse::{
    first_bytes, tail, CommandError, CommandErrorView, Parse, ParseError, ParseErrorView,
};
use crate::frame::grammar::FrameView;
use crate::frame::Frame;
use crate::text::{same_bytes, text_bytes};
use vstd::prelude::*;
use vstd::string::*;

verus! {

/// Tells the server the name or the version of the client library.
#[derive(Debug, Default)]
pub struct ClientSetInfo {
    lib_name: Option<Vec<u8>>,
    lib_version: Option<Vec<u8>>,
}

/// The mathematical value of a [`ClientSetInfo`].
pub struct ClientSetInfoView {
    pub lib_name: Option<Seq<u8>>,
    pub lib_version: Option<Seq<u8>>,
}

impl View for ClientSetInfo {
    type V = ClientSetInfoView;

    closed spec fn view(&self) -> ClientSetInfoView {
        ClientSetInfoView {
            lib_name: match self.lib_name {
                Some(bytes) => Some(bytes@),
                None => None,
            },
            lib_version: match self.lib_version {
                Some(bytes) => Some(bytes@),
                None => None,
            },
        }
    }
}

/// The attribute that holds the name of the client library.
pub open spec fn lib_name_key() -> Seq<u8> {
    text_bytes("LIB-NAME"@)
}

/// The attribute that holds the version of the client library.
pub open spec fn lib_version_key() -> Seq<u8> {
    text_bytes("LIB-VER"@)
}

/// What an attribute and its value set.
pub open spec fn info_of(key: Seq<u8>, value: Seq<u8>) -> ClientSetInfoView {
    if key == lib_name_key() {
        ClientSetInfoView { lib_name: Some(value), lib_version: None }
    } else if key == lib_version_key() {
        ClientSetInfoView { lib_name: None, lib_version: Some(value) }
    } else {
        ClientSetInfoView { lib_name: None, lib_version: None }
    }
}

/// What the two elements after `CLIENT SETINFO` ask for. Both are read.
/// Where one of them is missing nothing is set; where one of them is no
/// byte string, that is the error.
pub open spec fn set_info_of(rest: Seq<FrameView>) -> Result<ClientSetInfoView, CommandErrorView> {
    match (first_bytes(rest), first_bytes(tail(rest))) {
        (Ok(key), Ok(value)) => Ok(info_of(key, value)),
        (Err(ParseErrorView::EndOfStream), _) => Ok(
            ClientSetInfoView { lib_name: None, lib_version: None },
        ),
        (_, Err(ParseErrorView::EndOfStream)) => Ok(
            ClientSetInfoView { lib_name: None, lib_version: None },
        ),
        (Err(e), _) => Err(CommandErrorView::Protocol(e)),
        (_, Err(e)) => Err(CommandErrorView::Protocol(e)),
    }
}

impl ClientSetInfo {
    /// Creates a `ClientSetInfo` command.
    pub fn new(lib_name: Option<Vec<u8>>, lib_version: Option<Vec<u8>>) -> (info: ClientSetInfo)
        ensures
            info@.lib_name == match lib_name {
                Some(bytes) => Some(bytes@),
                None => None,
            },
            info@.lib_version == match lib_version {
                Some(bytes) => Some(bytes@),
                None => None,
            },
    {
        ClientSetInfo { lib_name, lib_version }
    }

    /// The name of the client library, if the command sets it.
    pub fn lib_name(&self) -> (name: &Option<Vec<u8>>)
        ensures
            self@.lib_name == match *name {
                Some(bytes) => Some(bytes@),
                None => None,
            },
    {
        &self.lib_name
    }

    /// The version of the client library, if the command sets it.
    pub fn lib_version(&self) -> (version: &Option<Vec<u8>>)
        ensures
            self@.lib_version == match *version {
                Some(bytes) => Some(bytes@),
                None => None,
            },
    {
        &self.lib_version
    }

    /// The command that sets the attribute `key` to `value`.
    pub fn from_attribute(key: Vec<u8>, value: Vec<u8>) -> (info: ClientSetInfo)
        ensures
            info@ == info_of(key@, value@),
    {
        let name_key = String::from_str("LIB-NAME").as_str().as_bytes_vec();
        let version_key = String::from_str("LIB-VER").as_str().as_bytes_vec();
        if same_bytes(&key, &name_key) {
            ClientSetInfo::new(Some(value), None)
        } else if same_bytes(&key, &version_key) {
            ClientSetInfo::new(None, Some(value))
        } else {
            ClientSetInfo::new(None, None)
        }
    }

    /// Reads the elements that follow `CLIENT SETINFO`.
    pub fn parse_frames(parse: &mut Parse) -> (r: Result<ClientSetInfo, CommandError>)
        ensures
            final(parse).remaining() == tail(tail(old(parse).remaining())),
            match set_info_of(old(parse).remaining()) {
                Ok(info) => r is Ok && r->Ok_0@ == info,
                Err(e) => r is Err && r->Err_0@ == e,
            },
    {
        let key = parse.next_bytes();
        let value = parse.next_bytes();
        match (key, value) {
            (Ok(key), Ok(value)) => Ok(ClientSetInfo::from_attribute(key, value)),
            (Err(ParseError::EndOfStream), _) => Ok(ClientSetInfo::new(None, None)),
            (_, Err(ParseError::EndOfStream)) => Ok(ClientSetInfo::new(None, None)),
            (Err(e), _) => Err(CommandError::Protocol(e)),
            (_, Err(e)) => Err(CommandError::Protocol(e)),
        }
    }
}

/// The answer to `CLIENT SETINFO`.
pub open spec fn set_info_reply() -> FrameView {
    FrameView::Simple(text_bytes("OK"@))
}

impl ClientSetInfo {
    /// Answers the command.
    pub fn apply(self) -> (reply: Frame)
        ensures
            reply@ == set_info_reply(),
    {
        Frame::simple("OK")
    }
}

} // verus!
