//! A command that the server does not know.

use crate::frame::grammar::FrameView;
use crate::frame::Frame;
use crate::text::text_bytes;
use vstd::prelude::*;
use vstd::string::*;

verus! {

/// Stands for a command that the server does not know.
#[derive(Debug)]
pub struct Unknown {
    command_name: String,
}

impl View for Unknown {
    type V = Seq<char>;

    closed spec fn view(&self) -> Seq<char> {
        self.command_name@
    }
}

impl Unknown {
    /// Creates the answer to a command of the given name.
    pub fn new(key: String) -> (unknown: Unknown)
        ensures
            unknown@ == key@,
    {
        Unknown { command_name: key }
    }

    /// The name of the command, as it was matched.
    pub fn get_name(&self) -> (name: &String)
        ensures
            name@ == self@,
    {
        &self.command_name
    }
}

/// The text that answers a command of the given name.
pub open spec fn unknown_text(name: Seq<char>) -> Seq<char> {
    "ERR unknown command '"@ + name + "'"@
}

/// The answer to a command that the server does not know.
pub open spec fn unknown_reply(name: Seq<char>) -> FrameView {
    FrameView::Error(text_bytes(unknown_text(name)))
}

impl Unknown {
    /// Answers the command: an error that names it.
    pub fn apply(self) -> (reply: Frame)
        ensures
            reply@ == unknown_reply(self@),
    {
        let mut text = String::from_str("ERR unknown command '");
        text.append(self.command_name.as_str());
        text.append("'");
        Frame::error(&text)
    }
}

} // verus!
