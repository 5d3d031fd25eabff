//! `PING [message]`.

use crate::cmd::parse::{
    first_bytes, tail, CommandError, CommandErrorView, Parse, ParseError, ParseErrorView,
};
use crate::frame::grammar::FrameView;
use crate::frame::write::encode;
use crate::frame::Frame;
use crate::text::text_bytes;
use vstd::prelude::*;

verus! {

/// Returns PONG if no argument is provided, otherwise a copy of the
/// argument as a bulk.
#[derive(Debug, Default)]
pub struct Ping {
    /// The message to be returned, if any.
    msg: Option<Vec<u8>>,
}

impl View for Ping {
    type V = Option<Seq<u8>>;

    closed spec fn view(&self) -> Option<Seq<u8>> {
        match self.msg {
            Some(bytes) => Some(bytes@),
            None => None,
        }
    }
}

/// What the elements after `PING` ask for, and the elements that are left.
pub open spec fn ping_of(rest: Seq<FrameView>) -> Result<
    (Option<Seq<u8>>, Seq<FrameView>),
    CommandErrorView,
> {
    match first_bytes(rest) {
        Ok(bytes) => Ok((Some(bytes), tail(rest))),
        Err(ParseErrorView::EndOfStream) => Ok((None, rest)),
        Err(e) => Err(CommandErrorView::Protocol(e)),
    }
}

impl Ping {
    /// Creates a `Ping` command with an optional message.
    pub fn new(msg: Option<Vec<u8>>) -> (ping: Ping)
        ensures
            ping@ == match msg {
                Some(bytes) => Some(bytes@),
                None => None,
            },
    {
        Ping { msg }
    }

    /// The message, if there is one.
    pub fn message(&self) -> (msg: &Option<Vec<u8>>)
        ensures
            self@ == match *msg {
                Some(bytes) => Some(bytes@),
                None => None,
            },
    {
        &self.msg
    }

    /// Reads the elements that follow the name `PING`.
    pub fn parse_frames(parse: &mut Parse) -> (r: Result<Ping, CommandError>)
        ensures
            match ping_of(old(parse).remaining()) {
                Ok((ping, left)) => r is Ok && r->Ok_0@ == ping && final(parse).remaining() == left,
                Err(e) => r is Err && r->Err_0@ == e,
            },
    {
        match parse.next_bytes() {
            Ok(msg) => Ok(Ping::new(Some(msg))),
            Err(ParseError::EndOfStream) => Ok(Ping::new(None)),
            Err(e) => Err(CommandError::Protocol(e)),
        }
    }
}

/// The answer to `PING`: `PONG`, or the message that came with it.
pub open spec fn ping_reply(ping: Option<Seq<u8>>) -> FrameView {
    match ping {
        None => FrameView::Simple(text_bytes("PONG"@)),
        Some(msg) => FrameView::Bulk(msg),
    }
}

impl Ping {
    /// Answers the command.
    pub fn apply(self) -> (reply: Frame)
        ensures
            reply@ == ping_reply(self@),
    {
        match self.msg {
            None => Frame::simple("PONG"),
            Some(msg) => Frame::Bulk(msg),
        }
    }
}

/// The answer to a `PING` without a message is written as `+PONG` and CR LF.
pub proof fn lemma_pong_on_the_wire()
    ensures
        encode(ping_reply(None)) == seq![43u8, 80u8, 79u8, 78u8, 71u8, 13u8, 10u8],
{
    reveal_strlit("PONG");
    vstd::utf8::is_ascii_chars_encode_utf8("PONG"@);
    assert(text_bytes("PONG"@) =~= seq![80u8, 79u8, 78u8, 71u8]);
    assert(encode(ping_reply(None)) =~= seq![43u8, 80u8, 79u8, 78u8, 71u8, 13u8, 10u8]);
}

} // verus!
