//! Reading the elements of a command one by one.

use crate::frame::grammar::{decimal_of, FrameView};
use crate::frame::{frames_view, parse_decimal, Frame};
use vstd::prelude::*;
use vstd::string::*;
use vstd::utf8::valid_utf8;

verus! {

/// Why an element could not be read from a command.
#[derive(Debug, PartialEq, Eq)]
pub enum ParseError {
    /// The command has no more elements.
    EndOfStream,
    /// The element is not what was asked for; the text says why.
    Other(String),
}

/// The mathematical value of a [`ParseError`].
pub enum ParseErrorView {
    EndOfStream,
    Other(Seq<char>),
}

impl View for ParseError {
    type V = ParseErrorView;

    open spec fn view(&self) -> ParseErrorView {
        match self {
            ParseError::EndOfStream => ParseErrorView::EndOfStream,
            ParseError::Other(text) => ParseErrorView::Other(text@),
        }
    }
}

/// Why a frame is not a command.
#[derive(Debug, PartialEq, Eq)]
pub enum CommandError {
    /// The frame does not have the shape of the command; the connection
    /// cannot go on.
    Protocol(ParseError),
    /// The command asks for what is not there; the connection goes on.
    Application(String),
}

/// The mathematical value of a [`CommandError`].
pub enum CommandErrorView {
    Protocol(ParseErrorView),
    Application(Seq<char>),
}

impl View for CommandError {
    type V = CommandErrorView;

    open spec fn view(&self) -> CommandErrorView {
        match self {
            CommandError::Protocol(e) => CommandErrorView::Protocol(e@),
            CommandError::Application(text) => CommandErrorView::Application(text@),
        }
    }
}

pub open spec fn expected_array() -> Seq<char> {
    "protocol error; expected array"@
}

pub open spec fn expected_text() -> Seq<char> {
    "protocol error; expected simple frame or bulk frame"@
}

pub open spec fn invalid_string() -> Seq<char> {
    "protocol error; invalid string"@
}

pub open spec fn expected_int() -> Seq<char> {
    "protocol error; expected int frame"@
}

pub open spec fn invalid_number() -> Seq<char> {
    "protocol error; invalid number"@
}

pub open spec fn expected_end() -> Seq<char> {
    "protocol error; expected end of frame, but there was more"@
}

/// The elements that are left once the first has been taken.
pub open spec fn tail(rest: Seq<FrameView>) -> Seq<FrameView> {
    if rest.len() > 0 {
        rest.skip(1)
    } else {
        rest
    }
}

/// The bytes of an element.
pub open spec fn bytes_of(frame: FrameView) -> Result<Seq<u8>, ParseErrorView> {
    match frame {
        FrameView::Simple(text) => Ok(text),
        FrameView::Bulk(bytes) => Ok(bytes),
        _ => Err(ParseErrorView::Other(expected_text())),
    }
}

/// The text that bytes spell in UTF-8.
pub open spec fn text_of(bytes: Seq<u8>) -> Result<Seq<char>, ParseErrorView> {
    if valid_utf8(bytes) {
        Ok(vstd::utf8::decode_utf8(bytes))
    } else {
        Err(ParseErrorView::Other(invalid_string()))
    }
}

/// The text of an element.
pub open spec fn string_of(frame: FrameView) -> Result<Seq<char>, ParseErrorView> {
    match bytes_of(frame) {
        Ok(bytes) => text_of(bytes),
        Err(e) => Err(e),
    }
}

/// The number of an element: an integer, or text that spells one.
pub open spec fn int_of(frame: FrameView) -> Result<u64, ParseErrorView> {
    match frame {
        FrameView::Integer(value) => Ok(value),
        FrameView::Simple(text) => match decimal_of(text) {
            Some(value) => Ok(value),
            None => Err(ParseErrorView::Other(invalid_number())),
        },
        FrameView::Bulk(bytes) => match decimal_of(bytes) {
            Some(value) => Ok(value),
            None => Err(ParseErrorView::Other(invalid_number())),
        },
        _ => Err(ParseErrorView::Other(expected_int())),
    }
}

/// The bytes of the first element of `rest`.
pub open spec fn first_bytes(rest: Seq<FrameView>) -> Result<Seq<u8>, ParseErrorView> {
    if rest.len() == 0 {
        Err(ParseErrorView::EndOfStream)
    } else {
        bytes_of(rest[0])
    }
}

/// The text of the first element of `rest`.
pub open spec fn first_string(rest: Seq<FrameView>) -> Result<Seq<char>, ParseErrorView> {
    if rest.len() == 0 {
        Err(ParseErrorView::EndOfStream)
    } else {
        string_of(rest[0])
    }
}

/// The number of the first element of `rest`.
pub open spec fn first_int(rest: Seq<FrameView>) -> Result<u64, ParseErrorView> {
    if rest.len() == 0 {
        Err(ParseErrorView::EndOfStream)
    } else {
        int_of(rest[0])
    }
}

/// Calls `String::from_utf8`, which turns bytes that are valid UTF-8 into
/// the text that they spell and refuses all other bytes.
#[verifier::external_body]
fn string_from_utf8(bytes: Vec<u8>) -> (text: Option<String>)
    ensures
        text is Some == valid_utf8(bytes@),
        text matches Some(s) ==> s@ == vstd::utf8::decode_utf8(bytes@),
{
    String::from_utf8(bytes).ok()
}

/// Copies bytes.
pub fn copy_bytes(bytes: &Vec<u8>) -> (copy: Vec<u8>)
    ensures
        copy@ == bytes@,
{
    let mut copy: Vec<u8> = Vec::new();
    let mut i: usize = 0;
    while i < bytes.len()
        invariant
            i <= bytes.len(),
            copy@ == bytes@.take(i as int),
        decreases bytes.len() - i,
    {
        copy.push(bytes[i]);
        assert(copy@ =~= bytes@.take(i + 1));
        i = i + 1;
    }
    assert(bytes@.take(i as int) =~= bytes@);
    copy
}

/// The text that bytes spell, or the error for bytes that spell none.
pub fn bytes_to_string(bytes: Vec<u8>) -> (r: Result<String, ParseError>)
    ensures
        match text_of(bytes@) {
            Ok(text) => r is Ok && r->Ok_0@ == text,
            Err(e) => r is Err && r->Err_0@ == e,
        },
{
    match string_from_utf8(bytes) {
        Some(text) => Ok(text),
        None => Err(ParseError::Other(String::from_str("protocol error; invalid string"))),
    }
}

/// A cursor over the elements of a command.
pub struct Parse {
    parts: Vec<Frame>,
    next: usize,
}

impl Parse {
    #[verifier::type_invariant]
    spec fn within_parts(self) -> bool {
        self.next <= self.parts@.len()
    }

    /// The elements that have not been read yet.
    pub closed spec fn remaining(&self) -> Seq<FrameView> {
        frames_view(self.parts@).skip(self.next as int)
    }

    /// Starts reading the elements of `frame`, which has to be an array.
    pub fn new(frame: Frame) -> (r: Result<Parse, ParseError>)
        ensures
            match frame@ {
                FrameView::Array(items) => r is Ok && r->Ok_0.remaining() == items,
                _ => r is Err && r->Err_0@ == ParseErrorView::Other(expected_array()),
            },
    {
        proof {
            crate::frame::lemma_view_of_collections(frame);
        }
        match frame {
            Frame::Array(parts) => {
                let parse = Parse { parts, next: 0 };
                assert(parse.remaining() =~= frames_view(parts@));
                Ok(parse)
            },
            _ => Err(ParseError::Other(String::from_str("protocol error; expected array"))),
        }
    }

    /// Number of elements that are left.
    pub fn remaining_len(&self) -> (count: usize)
        ensures
            count == self.remaining().len(),
    {
        proof {
            use_type_invariant(self);
        }
        self.parts.len() - self.next
    }

    /// Reads the next element as bytes.
    pub fn next_bytes(&mut self) -> (r: Result<Vec<u8>, ParseError>)
        ensures
            final(self).remaining() == tail(old(self).remaining()),
            match first_bytes(old(self).remaining()) {
                Ok(bytes) => r is Ok && r->Ok_0@ == bytes,
                Err(e) => r is Err && r->Err_0@ == e,
            },
    {
        proof {
            use_type_invariant(&*self);
        }
        if self.next >= self.parts.len() {
            return Err(ParseError::EndOfStream);
        }
        let index = self.next;
        self.next = self.next + 1;
        assert(self.remaining() =~= tail(old(self).remaining()));
        assert(old(self).remaining()[0] == self.parts@[index as int]@);
        match &self.parts[index] {
            Frame::Simple(text) => Ok(copy_bytes(text)),
            Frame::Bulk(bytes) => Ok(copy_bytes(bytes)),
            _ => Err(
                ParseError::Other(
                    String::from_str("protocol error; expected simple frame or bulk frame"),
                ),
            ),
        }
    }

    /// Reads the next element as text.
    pub fn next_string(&mut self) -> (r: Result<String, ParseError>)
        ensures
            final(self).remaining() == tail(old(self).remaining()),
            match first_string(old(self).remaining()) {
                Ok(text) => r is Ok && r->Ok_0@ == text,
                Err(e) => r is Err && r->Err_0@ == e,
            },
    {
        match self.next_bytes() {
            Ok(bytes) => bytes_to_string(bytes),
            Err(e) => Err(e),
        }
    }

    /// Reads the next element as a number.
    pub fn next_int(&mut self) -> (r: Result<u64, ParseError>)
        ensures
            final(self).remaining() == tail(old(self).remaining()),
            match first_int(old(self).remaining()) {
                Ok(value) => r == Ok::<u64, ParseError>(value),
                Err(e) => r is Err && r->Err_0@ == e,
            },
    {
        proof {
            use_type_invariant(&*self);
        }
        if self.next >= self.parts.len() {
            return Err(ParseError::EndOfStream);
        }
        let index = self.next;
        self.next = self.next + 1;
        assert(self.remaining() =~= tail(old(self).remaining()));
        assert(old(self).remaining()[0] == self.parts@[index as int]@);
        match &self.parts[index] {
            Frame::Integer(value) => Ok(*value),
            Frame::Simple(text) => match parse_decimal(text.as_slice()) {
                Some(value) => Ok(value),
                None => Err(ParseError::Other(String::from_str("protocol error; invalid number"))),
            },
            Frame::Bulk(bytes) => match parse_decimal(bytes.as_slice()) {
                Some(value) => Ok(value),
                None => Err(ParseError::Other(String::from_str("protocol error; invalid number"))),
            },
            _ => Err(ParseError::Other(String::from_str("protocol error; expected int frame"))),
        }
    }

    /// Checks that every element has been read.
    pub fn finish(&mut self) -> (r: Result<(), ParseError>)
        ensures
            final(self).remaining() == old(self).remaining(),
            old(self).remaining().len() == 0 ==> r is Ok,
            old(self).remaining().len() > 0 ==> r is Err && r->Err_0@ == ParseErrorView::Other(
                expected_end(),
            ),
    {
        proof {
            use_type_invariant(&*self);
        }
        if self.next >= self.parts.len() {
            Ok(())
        } else {
            Err(
                ParseError::Other(
                    String::from_str("protocol error; expected end of frame, but there was more"),
                ),
            )
        }
    }
}

} // verus!
