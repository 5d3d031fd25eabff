//! `HELLO`.

use crate::cmd::parse::{
    expected_end, CommandError, CommandErrorView, Parse, ParseErrorView,
};
use crate::frame::grammar::FrameView;
use crate::frame::{lemma_view_of_collections, Frame};
use crate::text::text_bytes;
use vstd::prelude::*;

verus! {

/// Asks for the properties of the server and of the connection. The
/// server always answers in RESP3.
#[derive(Debug, Default)]
pub struct Hello {}

/// A command without arguments: the elements after its name have to be none.
pub open spec fn nothing_of(rest: Seq<FrameView>) -> Result<Seq<FrameView>, CommandErrorView> {
    if rest.len() == 0 {
        Ok(rest)
    } else {
        Err(CommandErrorView::Protocol(ParseErrorView::Other(expected_end())))
    }
}

impl Hello {
    pub fn new() -> (hello: Hello) {
        Hello {  }
    }

    /// Reads the elements that follow the name `HELLO`: there are none.
    pub fn parse_frames(parse: &mut Parse) -> (r: Result<Hello, CommandError>)
        ensures
            final(parse).remaining() == old(parse).remaining(),
            match nothing_of(old(parse).remaining()) {
                Ok(_) => r is Ok,
                Err(e) => r is Err && r->Err_0@ == e,
            },
    {
        match parse.finish() {
            Ok(()) => Ok(Hello::new()),
            Err(e) => Err(CommandError::Protocol(e)),
        }
    }
}

/// The version that the server reports.
pub open spec fn version_text() -> Seq<char> {
    "0.1.0"@
}

/// The version that the server reports.
pub fn version() -> (text: &'static str)
    ensures
        text@ == version_text(),
{
    "0.1.0"
}

/// A simple string that holds a text.
pub open spec fn simple_of(text: Seq<char>) -> FrameView {
    FrameView::Simple(text_bytes(text))
}

/// The answer to `HELLO` on the connection with the given id: the
/// properties of the server and of the connection as a RESP3 map.
pub open spec fn hello_reply(id: u64) -> FrameView {
    FrameView::Mapping(
        seq![
            (simple_of("server"@), simple_of("roster"@)),
            (simple_of("version"@), simple_of(version_text())),
            (simple_of("proto"@), FrameView::Integer(3)),
            (simple_of("id"@), FrameView::Integer(id)),
            (simple_of("mode"@), simple_of("standalone"@)),
            (simple_of("role"@), simple_of("undefined"@)),
            (simple_of("modules"@), FrameView::Array(Seq::empty())),
        ],
    )
}

impl Hello {
    /// Answers the command on the connection with the given id.
    pub fn apply(self, id: u64) -> (reply: Frame)
        ensures
            reply@ == hello_reply(id),
    {
        let mut entries: Vec<(Frame, Frame)> = Vec::new();
        entries.push((Frame::simple("server"), Frame::simple("roster")));
        entries.push((Frame::simple("version"), Frame::simple(version())));
        entries.push((Frame::simple("proto"), Frame::Integer(3)));
        entries.push((Frame::simple("id"), Frame::Integer(id)));
        entries.push((Frame::simple("mode"), Frame::simple("standalone")));
        entries.push((Frame::simple("role"), Frame::simple("undefined")));
        let modules = Frame::Array(Vec::new());
        proof {
            lemma_view_of_collections(modules);
            assert(modules@->Array_0 =~= Seq::<FrameView>::empty());
        }
        entries.push((Frame::simple("modules"), modules));
        let reply = Frame::Mapping(entries);
        proof {
            lemma_view_of_collections(reply);
            assert(reply@->Mapping_0 =~= hello_reply(id)->Mapping_0);
        }
        reply
    }
}

} // verus!
