//! `ACL CAT [category]`.

use crate::cmd::parse::{first_string, tail, CommandError, Parse};
use crate::frame::grammar::FrameView;
use crate::frame::Frame;
use crate::text::text_bytes;
use vstd::prelude::*;

verus! {

/// Shows the ACL categories, or the commands of one category.
#[derive(Debug, Default)]
pub struct AclCat {
    category: Option<String>,
}

impl View for AclCat {
    type V = Option<Seq<char>>;

    closed spec fn view(&self) -> Option<Seq<char>> {
        match self.category {
            Some(category) => Some(category@),
            None => None,
        }
    }
}

/// What the elements after `ACL CAT` ask for, and the elements that are
/// left. An element that is no text stands for no category.
pub open spec fn acl_cat_of(rest: Seq<FrameView>) -> (Option<Seq<char>>, Seq<FrameView>) {
    match first_string(rest) {
        Ok(category) => (Some(category), tail(rest)),
        Err(_) => (None, tail(rest)),
    }
}

impl AclCat {
    /// Creates an `AclCat` command with an optional category.
    pub fn new(category: Option<String>) -> (cat: AclCat)
        ensures
            cat@ == match category {
                Some(text) => Some(text@),
                None => None,
            },
    {
        AclCat { category }
    }

    /// The category that is asked for, if any.
    pub fn category(&self) -> (category: &Option<String>)
        ensures
            self@ == match *category {
                Some(text) => Some(text@),
                None => None,
            },
    {
        &self.category
    }

    /// Reads the elements that follow `ACL CAT`.
    pub fn parse_frames(parse: &mut Parse) -> (r: Result<AclCat, CommandError>)
        ensures
            r is Ok,
            r->Ok_0@ == acl_cat_of(old(parse).remaining()).0,
            final(parse).remaining() == acl_cat_of(old(parse).remaining()).1,
    {
        match parse.next_string() {
            Ok(category) => Ok(AclCat::new(Some(category))),
            Err(_) => Ok(AclCat::new(None)),
        }
    }
}

/// The answer to `ACL CAT`, which is not worked out yet.
pub open spec fn acl_cat_reply() -> FrameView {
    FrameView::Simple(text_bytes("OK"@))
}

impl AclCat {
    /// Answers the command.
    pub fn apply(self) -> (reply: Frame)
        ensures
            reply@ == acl_cat_reply(),
    {
        Frame::simple("OK")
    }
}

} // verus!
