//! `GET key`.

use crate::cmd::parse::{first_string, tail, CommandError, CommandErrorView, Parse};
use crate::frame::grammar::FrameView;
use crate::frame::Frame;
use crate::storage::{after_get, lookup_in, StorageSegment};
use crate::hash::{crc_hash, spec_crc_hash};
use crate::text::{string_bytes, text_bytes};
use vstd::prelude::*;

verus! {

/// Gets the value of a key; the null bulk stands for a key that is not there.
#[derive(Debug, Default)]
pub struct Get {
    /// The key to look up.
    key: String,
}

impl View for Get {
    type V = Seq<char>;

    closed spec fn view(&self) -> Seq<char> {
        self.key@
    }
}

/// What the elements after `GET` ask for, and the elements that are left.
pub open spec fn get_of(rest: Seq<FrameView>) -> Result<(Seq<char>, Seq<FrameView>), CommandErrorView> {
    match first_string(rest) {
        Ok(key) => Ok((key, tail(rest))),
        Err(e) => Err(CommandErrorView::Protocol(e)),
    }
}

impl Get {
    /// Creates a `Get` command for `key`.
    pub fn new(key: String) -> (get: Get)
        ensures
            get@ == key@,
    {
        Get { key }
    }

    /// The key to look up.
    pub fn key(&self) -> (key: &String)
        ensures
            key@ == self@,
    {
        &self.key
    }

    /// Reads the elements that follow the name `GET`.
    pub fn parse_frames(parse: &mut Parse) -> (r: Result<Get, CommandError>)
        ensures
            match get_of(old(parse).remaining()) {
                Ok((key, left)) => r is Ok && r->Ok_0@ == key && final(parse).remaining() == left,
                Err(e) => r is Err && r->Err_0@ == e,
            },
    {
        match parse.next_string() {
            Ok(key) => Ok(Get { key }),
            Err(e) => Err(CommandError::Protocol(e)),
        }
    }

    /// The hash slot of the key.
    pub fn hash_key(&self) -> (hash: Option<u16>)
        ensures
            hash == Some(spec_crc_hash(text_bytes(self@))),
    {
        let bytes = string_bytes(&self.key);
        Some(crc_hash(bytes.as_slice()))
    }
}

/// The answer to `GET`: the value that was found, or the null bulk.
pub open spec fn get_reply(found: Option<Seq<u8>>) -> FrameView {
    match found {
        Some(value) => FrameView::Bulk(value),
        None => FrameView::Null,
    }
}

impl Get {
    /// Looks the key up in the shard at the time `now` and answers with
    /// what was found. A value that has expired leaves the shard.
    pub fn apply(self, storage: &mut StorageSegment, now: u64) -> (reply: Frame)
        ensures
            reply@ == get_reply(lookup_in(old(storage).entries(), text_bytes(self@), now)),
            final(storage).entries() == after_get(old(storage).entries(), text_bytes(self@), now),
            final(storage).slot() == old(storage).slot(),
            final(storage).writes() == old(storage).writes(),
    {
        match storage.get_async(self.key, now) {
            Some(value) => Frame::Bulk(value),
            None => Frame::Null,
        }
    }
}

} // verus!
