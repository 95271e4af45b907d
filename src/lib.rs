//! A one-shot client for a key-value server that speaks a line protocol:
//! commands go out as one line of space-separated words, and the reply's
//! first character says whether the server succeeded.

pub mod command;
pub mod reply;
pub mod words;

pub use command::{command_line, decimal_text, Command};
pub use reply::{decode_reply, parse_reply, report, Report, ReplyError, REPLY_CAPACITY};
