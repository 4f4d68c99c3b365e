//! What the server does with the lines that its clients send.

pub mod grammar;
pub mod parser;
pub mod session;

pub use crate::server::grammar::{regex_is_match, regex_match};
pub use crate::server::parser::{try_parse_from_line, ParseError, ParseErrorView};
pub use crate::server::session::{on_parsed, on_read, Delivery, Read, Turn};
