//! A chat relay that speaks a line-oriented protocol in the manner of IRC:
//! the parser that turns one line into a typed command, the engine that
//! applies commands to the shared registries of identities and channels, and
//! the closed set of failures the engine answers with.
//!
//! - [`server::parser`] reads a line as a [`Command`]; [`server::grammar`]
//!   holds the shapes of its tokens, and [`text`] the cutting and joining.
//! - [`state`] holds the registries and applies commands to them. What a
//!   command does is defined in [`model`], over sets and maps, and what
//!   holds of the registries at all times is proved in [`laws`].
//! - [`errors`] is the set of failures, with their codes and texts, and
//!   [`replies`] what clients are told.
//! - [`server::session`] takes one turn of a connection: from what was read
//!   to what is to be sent.
//!
//! Nothing here reads or writes anything: lines come in as values, and
//! lines to send go out as values.

use vstd::prelude::*;

pub mod assoc;
pub mod commands;
pub mod errors;
pub mod laws;
pub mod model;
pub mod replies;
pub mod server;
pub mod state;
pub mod text;

pub use crate::commands::{Command, CommandKind, CommandKindView, CommandView};
pub use crate::errors::{IrcError, IrcErrorView};
pub use crate::replies::{Notice, Reply};
pub use crate::server::{
    on_read, try_parse_from_line, Delivery, ParseError, ParseErrorView, Read, Turn,
};
pub use crate::state::{Channel, Identity, State};

verus! {

/// Why the arguments of the program name no state file.
#[derive(Debug, PartialEq, Eq)]
pub enum ArgsError {
    /// There is no argument at all.
    MissingPath,
}

/// Picks the path of the state file out of the arguments of the program,
/// the name of the program not among them: it is the first.
pub fn parse_env_args(args: Vec<String>) -> (r: Result<String, ArgsError>)
    ensures
        args.len() == 0 ==> r == Err::<String, ArgsError>(ArgsError::MissingPath),
        args.len() > 0 ==> (r matches Ok(path) && path@ == args[0]@),
{
    if args.len() == 0 {
        Err(ArgsError::MissingPath)
    } else {
        Ok(args[0].clone())
    }
}

} // verus!
