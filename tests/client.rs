use kv_client::{
    command_line, decimal_text, decode_reply, parse_reply, report, Command, ReplyError,
    REPLY_CAPACITY,
};

fn s(t: &str) -> String {
    t.to_string()
}

#[test]
fn get_line_is_verb_and_key() {
    let c = Command::Get { key: s("name") };
    assert_eq!(command_line(&c), "GET name");
}

#[test]
fn set_line_is_verb_key_value() {
    let c = Command::SetValue { key: s("name"), value: s("alice") };
    assert_eq!(command_line(&c), "SET name alice");
}

#[test]
fn setex_line_has_seconds_between_key_and_value() {
    let c = Command::Setex { key: s("session"), seconds: 60, value: s("abc123") };
    assert_eq!(command_line(&c), "SETEX session 60 abc123");
}

#[test]
fn setex_line_with_zero_and_largest_seconds() {
    let c = Command::Setex { key: s("k"), seconds: 0, value: s("v") };
    assert_eq!(command_line(&c), "SETEX k 0 v");
    let c = Command::Setex { key: s("k"), seconds: u64::MAX, value: s("v") };
    assert_eq!(command_line(&c), "SETEX k 18446744073709551615 v");
}

#[test]
fn line_has_no_terminator() {
    let c = Command::Get { key: s("k") };
    assert!(!command_line(&c).ends_with('\n'));
}

#[test]
fn words_without_spaces_read_back_as_the_command() {
    let c = Command::Setex { key: s("k1"), seconds: 5, value: s("v1") };
    let line = command_line(&c);
    let words: Vec<&str> = line.split(' ').collect();
    assert_eq!(words, vec!["SETEX", "k1", "5", "v1"]);
}

#[test]
fn space_in_value_splits_into_extra_words() {
    let c = Command::SetValue { key: s("greeting"), value: s("hello world") };
    let line = command_line(&c);
    assert_eq!(line, "SET greeting hello world");
    assert_eq!(line.split(' ').count(), 4);
}

#[test]
fn space_in_key_splits_into_extra_words() {
    let c = Command::Get { key: s("a b") };
    let line = command_line(&c);
    assert_eq!(line, "GET a b");
    assert_eq!(line.split(' ').count(), 3);
}

#[test]
fn empty_key_keeps_its_place() {
    let c = Command::SetValue { key: s(""), value: s("v") };
    assert_eq!(command_line(&c), "SET  v");
}

#[test]
fn decimal_writing() {
    assert_eq!(decimal_text(0), "0");
    assert_eq!(decimal_text(7), "7");
    assert_eq!(decimal_text(10), "10");
    assert_eq!(decimal_text(1234567890), "1234567890");
    assert_eq!(decimal_text(u64::MAX), u64::MAX.to_string());
}

#[test]
fn ok_reply_prints_payload() {
    let r = decode_reply(b"+OK\r\n");
    assert_eq!(r, Ok(s("OK")));
    let out = report(r);
    assert_eq!(out.stdout, Some(s("OK")));
    assert_eq!(out.stderr, None);
}

#[test]
fn error_reply_prints_nothing_to_stdout() {
    let r = decode_reply(b"-ERR no such key\r\n");
    assert_eq!(r, Err(ReplyError::Server(s("ERR no such key"))));
    let out = report(r);
    assert_eq!(out.stdout, None);
    assert_eq!(out.stderr, Some(s("Error ERR no such key")));
}

#[test]
fn empty_reply_prints_nothing() {
    let r = decode_reply(b"");
    assert_eq!(r, Err(ReplyError::Empty));
    let out = report(r);
    assert_eq!(out.stdout, None);
    assert_eq!(out.stderr, None);
}

#[test]
fn unknown_sigil_is_malformed() {
    let r = decode_reply(b":5\r\n");
    assert_eq!(r, Err(ReplyError::Malformed(s(":5"))));
    let out = report(r);
    assert_eq!(out.stdout, None);
    assert_eq!(out.stderr, Some(s("Unexpected response format: :5")));
}

#[test]
fn payload_is_trimmed_on_both_ends() {
    assert_eq!(parse_reply("+  two words \t\r\n"), Ok(s("two words")));
    assert_eq!(parse_reply("+"), Ok(s("")));
    assert_eq!(parse_reply("-"), Err(ReplyError::Server(s(""))));
}

#[test]
fn whitespace_only_reply_is_malformed_not_empty() {
    assert_eq!(parse_reply(" \r\n"), Err(ReplyError::Malformed(s(""))));
}

#[test]
fn only_first_character_decides() {
    assert_eq!(parse_reply(" +OK"), Err(ReplyError::Malformed(s("+OK"))));
    assert_eq!(parse_reply("+-x"), Ok(s("-x")));
    assert_eq!(parse_reply("-+x"), Err(ReplyError::Server(s("+x"))));
}

#[test]
fn invalid_utf8_is_replaced() {
    assert_eq!(decode_reply(&[b'+', 0xff, b'a']), Ok(s("\u{FFFD}a")));
    assert_eq!(decode_reply(&[0xff]), Err(ReplyError::Malformed(s("\u{FFFD}"))));
}

#[test]
fn non_ascii_payload_survives() {
    assert_eq!(decode_reply("+héllo\r\n".as_bytes()), Ok(s("héllo")));
}

#[test]
fn reply_capacity_is_one_kilobyte() {
    assert_eq!(REPLY_CAPACITY, 1024);
}
