//! The commands the client can send and the line each one is written as.

use vstd::prelude::*;

use crate::words::{
    has_no_space, join_words, lemma_split_join, lemma_split_join_len, split_at_spaces,
};

verus! {

/// A request to the server.
#[derive(Debug, PartialEq, Eq)]
pub enum Command {
    /// Read the value stored under `key`.
    Get { key: String },
    /// Store `value` under `key`.
    SetValue { key: String, value: String },
    /// Store `value` under `key` for `seconds` seconds.
    Setex { key: String, seconds: u64, value: String },
}

impl Command {
    /// The word that names the command on the line.
    pub open spec fn verb(self) -> Seq<char> {
        match self {
            Command::Get { .. } => seq!['G', 'E', 'T'],
            Command::SetValue { .. } => seq!['S', 'E', 'T'],
            Command::Setex { .. } => seq!['S', 'E', 'T', 'E', 'X'],
        }
    }

    /// The texts that the caller supplied: the key, and the value where
    /// there is one.
    pub open spec fn arguments(self) -> Seq<Seq<char>> {
        match self {
            Command::Get { key } => seq![key@],
            Command::SetValue { key, value } => seq![key@, value@],
            Command::Setex { key, value, .. } => seq![key@, value@],
        }
    }

    /// The words of the command in the order they go on the line.
    pub open spec fn words(self) -> Seq<Seq<char>> {
        match self {
            Command::Get { key } => seq![self.verb(), key@],
            Command::SetValue { key, value } => seq![self.verb(), key@, value@],
            Command::Setex { key, seconds, value } => seq![
                self.verb(),
                key@,
                decimal(seconds as nat),
                value@,
            ],
        }
    }

    /// The line that carries the command: verb, key, the seconds where
    /// there are some, and the value where there is one, each followed by
    /// one space but the last. Nothing is escaped and no terminator is added.
    pub open spec fn line(self) -> Seq<char> {
        match self {
            Command::Get { key } => self.verb() + seq![' '] + key@,
            Command::SetValue { key, value } => self.verb() + seq![' '] + key@ + seq![' '] + value@,
            Command::Setex { key, seconds, value } => self.verb() + seq![' '] + key@ + seq![' ']
                + decimal(seconds as nat) + seq![' '] + value@,
        }
    }
}

/// The character that writes the decimal digit `d` (`0 <= d < 10`).
pub open spec fn digit_char(d: int) -> char {
    seq!['0', '1', '2', '3', '4', '5', '6', '7', '8', '9'][d]
}

/// The decimal writing of `n`, most significant digit first, without
/// leading zeros (zero is written `0`).
pub open spec fn decimal(n: nat) -> Seq<char>
    decreases n,
{
    if n < 10 {
        seq![digit_char(n as int)]
    } else {
        decimal(n / 10).push(digit_char((n % 10) as int))
    }
}

/// One decimal digit as text.
fn digit_text(d: u64) -> (r: String)
    requires
        d < 10,
    ensures
        r@ == seq![digit_char(d as int)],
{
    let digits = "0123456789";
    proof {
        reveal_strlit("0123456789");
    }
    let one = digits.substring_char(d as usize, d as usize + 1);
    assert(one@ =~= seq![digit_char(d as int)]);
    one.to_owned()
}

/// Writes `n` in decimal.
pub fn decimal_text(n: u64) -> (r: String)
    ensures
        r@ == decimal(n as nat),
    decreases n,
{
    if n < 10 {
        digit_text(n)
    } else {
        let mut r = decimal_text(n / 10);
        let last = digit_text(n % 10);
        r.append(last.as_str());
        r
    }
}

/// Writes the line that carries `c`.
pub fn command_line(c: &Command) -> (r: String)
    ensures
        r@ == c.line(),
{
    proof {
        reveal_strlit("GET ");
        reveal_strlit("SET ");
        reveal_strlit("SETEX ");
        reveal_strlit(" ");
    }
    match c {
        Command::Get { key } => {
            let mut r = "GET ".to_owned();
            r.append(key.as_str());
            assert(r@ =~= c.line());
            r
        },
        Command::SetValue { key, value } => {
            let mut r = "SET ".to_owned();
            r.append(key.as_str());
            r.append(" ");
            r.append(value.as_str());
            assert(r@ =~= c.line());
            r
        },
        Command::Setex { key, seconds, value } => {
            let mut r = "SETEX ".to_owned();
            r.append(key.as_str());
            r.append(" ");
            let digits = decimal_text(*seconds);
            r.append(digits.as_str());
            r.append(" ");
            r.append(value.as_str());
            assert(r@ =~= c.line());
            r
        },
    }
}

/// A decimal writing holds no space.
pub proof fn lemma_decimal_has_no_space(n: nat)
    ensures
        has_no_space(decimal(n)),
    decreases n,
{
    if n >= 10 {
        lemma_decimal_has_no_space(n / 10);
    }
}

/// The line of a command is its words joined by single spaces.
pub proof fn lemma_line_joins_words(c: Command)
    ensures
        c.line() == join_words(c.words()),
{
    let ws = c.words();
    let v = c.verb();
    match c {
        Command::Get { key } => {
            assert(ws.drop_last() =~= seq![v]);
            assert(join_words(seq![v]) == v);
            assert(join_words(ws) == v + seq![' '] + key@);
            assert(c.line() =~= join_words(ws));
        },
        Command::SetValue { key, value } => {
            assert(ws.drop_last() =~= seq![v, key@]);
            assert(seq![v, key@].drop_last() =~= seq![v]);
            assert(join_words(seq![v]) == v);
            assert(join_words(seq![v, key@]) == v + seq![' '] + key@);
            assert(join_words(ws) == join_words(seq![v, key@]) + seq![' '] + value@);
            assert(c.line() =~= join_words(ws));
        },
        Command::Setex { key, seconds, value } => {
            let d = decimal(seconds as nat);
            assert(ws.drop_last() =~= seq![v, key@, d]);
            assert(seq![v, key@, d].drop_last() =~= seq![v, key@]);
            assert(seq![v, key@].drop_last() =~= seq![v]);
            assert(join_words(seq![v]) == v);
            assert(join_words(seq![v, key@]) == v + seq![' '] + key@);
            assert(join_words(seq![v, key@, d]) == v + seq![' '] + key@ + seq![' '] + d);
            assert(join_words(ws) == join_words(seq![v, key@, d]) + seq![' '] + value@);
            assert(c.line() =~= join_words(ws));
        },
    }
}

/// Where no key or value holds a space, a server that cuts the line at
/// every space reads back exactly the command's words.
pub proof fn lemma_line_splits_into_words(c: Command)
    requires
        forall|k: int| 0 <= k < c.arguments().len() ==> has_no_space(#[trigger] c.arguments()[k]),
    ensures
        split_at_spaces(c.line()) == c.words(),
{
    let ws = c.words();
    let args = c.arguments();
    lemma_line_joins_words(c);
    assert forall|k: int| 0 <= k < ws.len() implies has_no_space(#[trigger] ws[k]) by {
        if k == 0 {
        } else if let Command::Setex { seconds, .. } = c {
            if k == 1 {
                assert(ws[k] == args[0]);
            } else if k == 2 {
                lemma_decimal_has_no_space(seconds as nat);
            } else {
                assert(ws[k] == args[1]);
            }
        } else {
            assert(ws[k] == args[k - 1]);
        }
    }
    lemma_split_join(ws);
}

/// A space inside a key or a value is not escaped: a server that cuts the
/// line at every space reads more words than the command has.
pub proof fn lemma_space_splits_argument(c: Command)
    requires
        exists|k: int| 0 <= k < c.arguments().len() && !has_no_space(#[trigger] c.arguments()[k]),
    ensures
        split_at_spaces(c.line()).len() > c.words().len(),
{
    let ws = c.words();
    let args = c.arguments();
    lemma_line_joins_words(c);
    let k = choose|k: int| 0 <= k < args.len() && !has_no_space(#[trigger] args[k]);
    let j: int = if k == 0 {
        1
    } else if c is Setex {
        3
    } else {
        2
    };
    assert(ws[j] == args[k]);
    lemma_split_join_len(ws);
}

} // verus!
