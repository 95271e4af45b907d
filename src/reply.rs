//! Reading the server's reply: its first character says whether the
//! command succeeded, and only a success hands a payload to the caller.

use vstd::prelude::*;

verus! {

/// The most bytes of a reply that the client reads; the rest is dropped.
pub const REPLY_CAPACITY: usize = 1024;

/// The text that a reply's bytes decode to, with every invalid UTF-8
/// sequence replaced by U+FFFD.
pub uninterp spec fn lossy_text(b: Seq<u8>) -> Seq<char>;

/// The text with its leading and trailing white space removed.
pub uninterp spec fn trimmed(s: Seq<char>) -> Seq<char>;

/// Relies on `String::from_utf8_lossy` to decode the reply: each byte is
/// part of a decoded character or of a sequence replaced by U+FFFD, so the
/// text is empty exactly when the bytes are.
#[verifier::external_body]
fn decode_lossy(b: &[u8]) -> (r: String)
    ensures
        r@ == lossy_text(b@),
        b@.len() == 0 <==> r@.len() == 0,
{
    String::from_utf8_lossy(b).into_owned()
}

/// Relies on `str::trim` to strip white space from both ends of a text.
#[verifier::external_body]
fn trim_text(s: &str) -> (r: String)
    ensures
        r@ == trimmed(s@),
{
    s.trim().to_owned()
}

/// Why a reply carries no payload.
#[derive(Debug, PartialEq, Eq)]
pub enum ReplyError {
    /// The server sent nothing.
    Empty,
    /// The reply began with `-`; holds the server's message, trimmed.
    Server(String),
    /// The reply began with neither `+` nor `-`; holds the whole reply,
    /// trimmed.
    Malformed(String),
}

/// `r` is what the reply `text` means: empty text is `Empty`; a leading
/// `+` gives the rest, trimmed, as the payload; a leading `-` gives the
/// rest, trimmed, as the server's message; anything else is `Malformed`
/// with the whole text, trimmed.
pub open spec fn reads_as(text: Seq<char>, r: Result<String, ReplyError>) -> bool {
    &&& (text.len() == 0 <==> r matches Err(ReplyError::Empty))
    &&& (text.len() > 0 && text[0] == '+' <==> r is Ok)
    &&& (text.len() > 0 && text[0] == '-' <==> r matches Err(ReplyError::Server(_)))
    &&& (r matches Ok(p) ==> p@ == trimmed(text.drop_first()))
    &&& (r matches Err(ReplyError::Server(m)) ==> m@ == trimmed(text.drop_first()))
    &&& (r matches Err(ReplyError::Malformed(t)) ==> t@ == trimmed(text))
}

/// Classifies a decoded reply by its first character.
pub fn parse_reply(text: &str) -> (r: Result<String, ReplyError>)
    ensures
        reads_as(text@, r),
{
    let n = text.unicode_len();
    if n == 0 {
        return Err(ReplyError::Empty);
    }
    let first = text.get_char(0);
    let rest = text.substring_char(1, n);
    assert(rest@ =~= text@.drop_first());
    if first == '+' {
        Ok(trim_text(rest))
    } else if first == '-' {
        Err(ReplyError::Server(trim_text(rest)))
    } else {
        Err(ReplyError::Malformed(trim_text(text)))
    }
}

/// Decodes the bytes of a reply and classifies them.
pub fn decode_reply(bytes: &[u8]) -> (r: Result<String, ReplyError>)
    ensures
        reads_as(lossy_text(bytes@), r),
        bytes@.len() == 0 <==> r matches Err(ReplyError::Empty),
{
    let text = decode_lossy(bytes);
    parse_reply(text.as_str())
}

/// What the client prints for one reply.
#[derive(Debug, PartialEq, Eq)]
pub struct Report {
    /// The line for standard output: the payload of a success.
    pub stdout: Option<String>,
    /// The line for standard error: a mention of what went wrong.
    pub stderr: Option<String>,
}

/// Decides what is printed for a reply. Only a success reaches standard
/// output; a server error or a malformed reply is mentioned on standard
/// error; an empty reply prints nothing at all. None of them is an error
/// of the client itself.
pub fn report(reply: Result<String, ReplyError>) -> (r: Report)
    ensures
        r.stdout is Some <==> reply is Ok,
        reply matches Ok(p) ==> r.stdout->Some_0@ == p@,
        r.stderr is Some <==> (reply matches Err(ReplyError::Server(_)) || reply matches Err(
            ReplyError::Malformed(_),
        )),
        reply matches Err(ReplyError::Server(m)) ==> r.stderr->Some_0@ == "Error "@ + m@,
        reply matches Err(ReplyError::Malformed(t)) ==> r.stderr->Some_0@
            == "Unexpected response format: "@ + t@,
{
    match reply {
        Ok(p) => Report { stdout: Some(p), stderr: None },
        Err(ReplyError::Empty) => Report { stdout: None, stderr: None },
        Err(ReplyError::Server(m)) => {
            let mut line = "Error ".to_owned();
            line.append(m.as_str());
            Report { stdout: None, stderr: Some(line) }
        },
        Err(ReplyError::Malformed(t)) => {
            let mut line = "Unexpected response format: ".to_owned();
            line.append(t.as_str());
            Report { stdout: None, stderr: Some(line) }
        },
    }
}

} // verus!
