//! The `ACL` commands.

use crate::cmd::acl::cat::{acl_cat_of, acl_cat_reply, AclCat};
use crate::frame::Frame;
use crate::cmd::parse::{first_string, tail, CommandError, CommandErrorView, Parse};
use crate::cmd::unknown::Unknown;
use crate::cmd::{finish_with, outcome, Command, CommandView, SubcommandRegistry};
use crate::frame::grammar::FrameView;
use crate::text::{is_text, lowercase, to_lowercase};
use vstd::prelude::*;

pub mod cat;

verus! {

/// The `ACL` commands that the server knows.
#[derive(Debug)]
pub enum Acl {
    Cat(AclCat),
}

/// The mathematical value of an [`Acl`].
pub enum AclView {
    Cat(Option<Seq<char>>),
}

impl View for Acl {
    type V = AclView;

    open spec fn view(&self) -> AclView {
        match self {
            Acl::Cat(cat) => AclView::Cat(cat@),
        }
    }
}

/// The command that the subcommand `lower`, in lower case, and the
/// elements after it stand for.
pub open spec fn acl_named(lower: Seq<char>, rest: Seq<FrameView>) -> Result<
    CommandView,
    CommandErrorView,
> {
    if lower == "cat"@ {
        finish_with(acl_cat_of(rest).1, CommandView::Acl(AclView::Cat(acl_cat_of(rest).0)))
    } else {
        Ok(CommandView::Unknown(lower))
    }
}

/// The command that the elements after `ACL` stand for.
pub open spec fn acl_of(rest: Seq<FrameView>) -> Result<CommandView, CommandErrorView> {
    match first_string(rest) {
        Ok(name) => acl_named(lowercase(name), tail(rest)),
        Err(e) => Err(CommandErrorView::Protocol(e)),
    }
}

impl Acl {
    /// Reads the command of the subcommand `lower`, which is its name in
    /// lower case, from the elements that follow it.
    pub fn from_name(lower: String, parse: Parse) -> (r: Result<Command, CommandError>)
        ensures
            outcome(r) == acl_named(lower@, parse.remaining()),
    {
        let mut parse = parse;
        if is_text(&lower, "cat") {
            let cat = match AclCat::parse_frames(&mut parse) {
                Ok(cat) => cat,
                Err(e) => {
                    return Err(e);
                },
            };
            match parse.finish() {
                Ok(()) => Ok(Command::Acl(Acl::Cat(cat))),
                Err(e) => Err(CommandError::Protocol(e)),
            }
        } else {
            Ok(Command::Unknown(Unknown::new(lower)))
        }
    }
}

impl SubcommandRegistry for Acl {
    open spec fn subcommand_of(rest: Seq<FrameView>) -> Result<CommandView, CommandErrorView> {
        acl_of(rest)
    }

    fn from_parse(parse: Parse) -> (r: Result<Command, CommandError>) {
        let mut parse = parse;
        match parse.next_string() {
            Ok(name) => Acl::from_name(to_lowercase(&name), parse),
            Err(e) => Err(CommandError::Protocol(e)),
        }
    }
}

impl Acl {
    /// Runs the command.
    pub fn apply(self) -> (reply: Frame)
        ensures
            reply@ == acl_cat_reply(),
    {
        match self {
            Acl::Cat(cmd) => cmd.apply(),
        }
    }
}

} // verus!
