//! `SET key value [EX seconds | PX milliseconds]`.

use crate::cmd::parse::{
    first_bytes, first_int, first_string, tail, CommandError, CommandErrorView, Parse, ParseError,
    ParseErrorView,
};
use crate::context::{coarse_ticks, duration_ticks};
use crate::frame::grammar::FrameView;
use crate::frame::Frame;
use crate::storage::{after_set, SetOptions, StorageSegment};
use crate::hash::{crc_hash, spec_crc_hash};
use crate::text::{is_text, string_bytes, text_bytes, to_uppercase, uppercase};
use vstd::prelude::*;
use vstd::string::*;

verus! {

/// How long a value lives.
#[derive(Debug, Clone, Copy, PartialEq, Eq, Structural)]
pub enum Expiry {
    Seconds(u64),
    Milliseconds(u64),
}

/// Sets a key to hold a value. A value that was there is overwritten and
/// its time to live forgotten.
#[derive(Debug)]
pub struct SetKey {
    /// The key to write.
    key: String,
    /// The value to be stored.
    value: Vec<u8>,
    /// When the key expires, if it does.
    expire: Option<Expiry>,
}

/// The mathematical value of a [`SetKey`].
pub struct SetKeyView {
    pub key: Seq<char>,
    pub value: Seq<u8>,
    pub expire: Option<Expiry>,
}

impl View for SetKey {
    type V = SetKeyView;

    closed spec fn view(&self) -> SetKeyView {
        SetKeyView { key: self.key@, value: self.value@, expire: self.expire }
    }
}

pub open spec fn unsupported_option() -> Seq<char> {
    "currently `SET` only supports the expiration option"@
}

/// The expiry that the option `upper`, in upper case, and the elements
/// after it ask for, and the elements that are left.
pub open spec fn expiry_of(upper: Seq<char>, rest: Seq<FrameView>) -> Result<
    (Expiry, Seq<FrameView>),
    CommandErrorView,
> {
    if upper == "EX"@ {
        match first_int(rest) {
            Ok(seconds) => Ok((Expiry::Seconds(seconds), tail(rest))),
            Err(e) => Err(CommandErrorView::Protocol(e)),
        }
    } else if upper == "PX"@ {
        match first_int(rest) {
            Ok(millis) => Ok((Expiry::Milliseconds(millis), tail(rest))),
            Err(e) => Err(CommandErrorView::Protocol(e)),
        }
    } else {
        Err(CommandErrorView::Application(unsupported_option()))
    }
}

/// What the elements after `SET` ask for, and the elements that are left.
pub open spec fn set_of(rest: Seq<FrameView>) -> Result<(SetKeyView, Seq<FrameView>), CommandErrorView> {
    match first_string(rest) {
        Err(e) => Err(CommandErrorView::Protocol(e)),
        Ok(key) => match first_bytes(tail(rest)) {
            Err(e) => Err(CommandErrorView::Protocol(e)),
            Ok(value) => {
                let options = tail(tail(rest));
                match first_string(options) {
                    Ok(option) => match expiry_of(uppercase(option), tail(options)) {
                        Ok((expiry, left)) => Ok(
                            (SetKeyView { key, value, expire: Some(expiry) }, left),
                        ),
                        Err(e) => Err(e),
                    },
                    Err(ParseErrorView::EndOfStream) => Ok(
                        (SetKeyView { key, value, expire: None }, options),
                    ),
                    Err(e) => Err(CommandErrorView::Protocol(e)),
                }
            },
        },
    }
}

impl SetKey {
    /// Creates a `SetKey` command.
    pub fn new(key: String, value: Vec<u8>, expire: Option<Expiry>) -> (set: SetKey)
        ensures
            set@ == (SetKeyView { key: key@, value: value@, expire }),
    {
        SetKey { key, value, expire }
    }

    /// The key to write.
    pub fn key(&self) -> (key: &String)
        ensures
            key@ == self@.key,
    {
        &self.key
    }

    /// The value to be stored.
    pub fn value(&self) -> (value: &Vec<u8>)
        ensures
            value@ == self@.value,
    {
        &self.value
    }

    /// When the key expires, if it does.
    pub fn expire(&self) -> (expire: Option<Expiry>)
        ensures
            expire == self@.expire,
    {
        self.expire
    }

    /// Reads the expiry that follows an option. `upper` is the option in
    /// upper case.
    pub fn expiry_from_option(upper: &String, parse: &mut Parse) -> (r: Result<Expiry, CommandError>)
        ensures
            match expiry_of(upper@, old(parse).remaining()) {
                Ok((expiry, left)) => r == Ok::<Expiry, CommandError>(expiry) && final(parse).remaining() == left,
                Err(e) => r is Err && r->Err_0@ == e,
            },
    {
        if is_text(upper, "EX") {
            match parse.next_int() {
                Ok(seconds) => Ok(Expiry::Seconds(seconds)),
                Err(e) => Err(CommandError::Protocol(e)),
            }
        } else if is_text(upper, "PX") {
            match parse.next_int() {
                Ok(millis) => Ok(Expiry::Milliseconds(millis)),
                Err(e) => Err(CommandError::Protocol(e)),
            }
        } else {
            Err(
                CommandError::Application(
                    String::from_str("currently `SET` only supports the expiration option"),
                ),
            )
        }
    }

    /// Reads the elements that follow the name `SET`.
    pub fn parse_frames(parse: &mut Parse) -> (r: Result<SetKey, CommandError>)
        ensures
            match set_of(old(parse).remaining()) {
                Ok((set, left)) => r is Ok && r->Ok_0@ == set && final(parse).remaining() == left,
                Err(e) => r is Err && r->Err_0@ == e,
            },
    {
        let key = match parse.next_string() {
            Ok(key) => key,
            Err(e) => {
                return Err(CommandError::Protocol(e));
            },
        };
        let value = match parse.next_bytes() {
            Ok(value) => value,
            Err(e) => {
                return Err(CommandError::Protocol(e));
            },
        };
        match parse.next_string() {
            Ok(option) => {
                let upper = to_uppercase(&option);
                match SetKey::expiry_from_option(&upper, parse) {
                    Ok(expiry) => Ok(SetKey { key, value, expire: Some(expiry) }),
                    Err(e) => Err(e),
                }
            },
            Err(ParseError::EndOfStream) => Ok(SetKey { key, value, expire: None }),
            Err(e) => Err(CommandError::Protocol(e)),
        }
    }

    /// The hash slot of the key.
    pub fn hash_key(&self) -> (hash: Option<u16>)
        ensures
            hash == Some(spec_crc_hash(text_bytes(self@.key))),
    {
        let bytes = string_bytes(&self.key);
        Some(crc_hash(bytes.as_slice()))
    }
}

/// The ticks that a value lives.
pub open spec fn expiry_ticks(expiry: Expiry) -> u64 {
    match expiry {
        Expiry::Seconds(seconds) => coarse_ticks(seconds, 0),
        Expiry::Milliseconds(millis) => coarse_ticks(
            millis / 1000,
            ((millis % 1000) * 1_000_000) as u32,
        ),
    }
}

/// The time at which a value that is written at `now` expires. A time
/// beyond the last tick is the last tick.
pub open spec fn deadline(now: u64, expire: Option<Expiry>) -> Option<u64> {
    match expire {
        Some(expiry) => Some(
            if now + expiry_ticks(expiry) > u64::MAX {
                u64::MAX
            } else {
                (now + expiry_ticks(expiry)) as u64
            },
        ),
        None => None,
    }
}

/// The answer to a write that was made.
pub open spec fn set_reply() -> FrameView {
    FrameView::Simple(text_bytes("OK"@))
}

impl SetKey {
    /// Writes the value with the given time of expiry and answers `OK`.
    pub fn store(self, storage: &mut StorageSegment, expires_at: Option<u64>) -> (reply: Frame)
        ensures
            reply@ == set_reply(),
            final(storage).entries() == after_set(
                old(storage).entries(),
                text_bytes(self@.key),
                self@.value,
                expires_at,
            ),
            final(storage).slot() == old(storage).slot(),
    {
        match storage.set_async(self.key, self.value, SetOptions { expired: expires_at }) {
            Ok(_) => Frame::simple("OK"),
            Err(_) => Frame::Null,
        }
    }

    /// The ticks that the value lives, if it expires.
    pub fn lifetime(&self) -> (ticks: Option<u64>)
        ensures
            ticks == match self@.expire {
                Some(expiry) => Some(expiry_ticks(expiry)),
                None => None,
            },
    {
        match self.expire {
            Some(Expiry::Seconds(seconds)) => Some(duration_ticks(seconds, 0)),
            Some(Expiry::Milliseconds(millis)) => Some(
                duration_ticks(millis / 1000, ((millis % 1000) * 1_000_000) as u32),
            ),
            None => None,
        }
    }

    /// Writes the value at the time `now` and answers `OK`.
    pub fn apply(self, storage: &mut StorageSegment, now: u64) -> (reply: Frame)
        ensures
            reply@ == set_reply(),
            final(storage).entries() == after_set(
                old(storage).entries(),
                text_bytes(self@.key),
                self@.value,
                deadline(now, self@.expire),
            ),
            final(storage).slot() == old(storage).slot(),
    {
        let expires_at = match self.lifetime() {
            Some(ticks) => Some(now.saturating_add(ticks)),
            None => None,
        };
        self.store(storage, expires_at)
    }
}

} // verus!
