use respkv::resp::commands::command::CommandName;
use respkv::resp::commands::{
    Echo, GetCommand, InfoCommand, ListGetCommand, ListLenCommand, ListPopCommand,
    ListPushCommand, Ping, Request, SetCommand,
};
use respkv::resp::parser::{find_command, parse_resp, ParseError};

fn words(items: &[&str]) -> Vec<String> {
    items.iter().map(|s| s.to_string()).collect()
}

#[test]
fn parse_ping() {
    assert_eq!(parse_resp("*1\r\n$4\r\nPING\r\n"), Ok(Request::Ping(Ping {})));
}

#[test]
fn parse_echo_with_its_argument() {
    assert_eq!(
        parse_resp("*2\r\n$4\r\nECHO\r\n$3\r\nhey\r\n"),
        Ok(Request::Echo(Echo { args: words(&["hey"]) }))
    );
}

#[test]
fn parse_get() {
    assert_eq!(
        parse_resp("*2\r\n$3\r\nGET\r\n$3\r\nfoo\r\n"),
        Ok(Request::Get(GetCommand::new(words(&["foo"]))))
    );
}

#[test]
fn parse_set_with_a_time_to_live() {
    assert_eq!(
        parse_resp("*5\r\n$3\r\nSET\r\n$3\r\nfoo\r\n$3\r\nbar\r\n$2\r\nPX\r\n$3\r\n100\r\n"),
        Ok(Request::SetValue(SetCommand::new(words(&["foo", "bar", "PX", "100"]))))
    );
}

#[test]
fn parse_the_list_commands() {
    assert_eq!(
        parse_resp("*3\r\n$5\r\nRPUSH\r\n$1\r\nk\r\n$1\r\na\r\n"),
        Ok(Request::Push(ListPushCommand::new(words(&["k", "a"]))))
    );
    assert_eq!(
        parse_resp("*3\r\n$5\r\nLPUSH\r\n$1\r\nk\r\n$1\r\na\r\n"),
        Ok(Request::Push(ListPushCommand::with_direction(words(&["k", "a"]), true)))
    );
    assert_eq!(
        parse_resp("*4\r\n$6\r\nLRANGE\r\n$1\r\nk\r\n$1\r\n0\r\n$2\r\n-1\r\n"),
        Ok(Request::Range(ListGetCommand::new(words(&["k", "0", "-1"]))))
    );
    assert_eq!(
        parse_resp("*2\r\n$4\r\nLLEN\r\n$1\r\nk\r\n"),
        Ok(Request::Length(ListLenCommand::new(words(&["k"]))))
    );
    assert_eq!(
        parse_resp("*3\r\n$4\r\nLPOP\r\n$1\r\nk\r\n$1\r\n2\r\n"),
        Ok(Request::Pop(ListPopCommand::new(words(&["k", "2"]))))
    );
}

#[test]
fn parse_info() {
    assert_eq!(parse_resp("*1\r\n$4\r\nINFO\r\n"), Ok(Request::Info(InfoCommand::new())));
}

#[test]
fn parse_rpush_is_not_lpush() {
    assert_ne!(
        parse_resp("*3\r\n$5\r\nRPUSH\r\n$1\r\nk\r\n$1\r\na\r\n"),
        parse_resp("*3\r\n$5\r\nLPUSH\r\n$1\r\nk\r\n$1\r\na\r\n")
    );
}

#[test]
fn parse_names_in_any_letter_case() {
    assert_eq!(parse_resp("*1\r\n$4\r\nping\r\n"), Ok(Request::Ping(Ping {})));
    assert_eq!(parse_resp("*1\r\n$4\r\nPiNg\r\n"), Ok(Request::Ping(Ping {})));
    assert_eq!(
        parse_resp("*2\r\n$4\r\neChO\r\n$1\r\nA\r\n"),
        Ok(Request::Echo(Echo { args: words(&["A"]) }))
    );
}

#[test]
fn parse_keeps_the_letter_case_of_arguments() {
    assert_eq!(
        parse_resp("*3\r\n$3\r\nset\r\n$3\r\nKey\r\n$5\r\nVaLuE\r\n"),
        Ok(Request::SetValue(SetCommand::new(words(&["Key", "VaLuE"]))))
    );
}

#[test]
fn parse_empty_input() {
    assert_eq!(parse_resp(""), Err(ParseError::EmptyInput));
    assert_eq!(parse_resp("  \r\n\t \n"), Err(ParseError::EmptyInput));
    assert_eq!(parse_resp("\u{a0}\u{3000}"), Err(ParseError::EmptyInput));
}

#[test]
fn parse_what_is_no_array() {
    assert_eq!(parse_resp("PING\r\n"), Err(ParseError::InvalidArray));
    assert_eq!(parse_resp("$4\r\nPING\r\n"), Err(ParseError::InvalidArray));
    assert_eq!(parse_resp(" *1\r\n$4\r\nPING\r\n"), Err(ParseError::InvalidArray));
    assert_eq!(parse_resp("\0"), Err(ParseError::InvalidArray));
}

#[test]
fn parse_fewer_than_three_lines() {
    assert_eq!(parse_resp("*"), Err(ParseError::Malformed));
    assert_eq!(parse_resp("*1"), Err(ParseError::Malformed));
    assert_eq!(parse_resp("*1\r\n$4"), Err(ParseError::Malformed));
    assert_eq!(parse_resp("*1\r\n$4\r\n"), Err(ParseError::Malformed));
    assert_eq!(parse_resp("*x\r\n$4\r\n"), Err(ParseError::Malformed));
}

#[test]
fn parse_a_count_that_is_no_number() {
    assert_eq!(parse_resp("*x\r\n$4\r\nPING\r\n"), Err(ParseError::InvalidCount));
    assert_eq!(parse_resp("*\r\n$4\r\nPING\r\n"), Err(ParseError::InvalidCount));
    assert_eq!(parse_resp("*-1\r\n$4\r\nPING\r\n"), Err(ParseError::InvalidCount));
    assert_eq!(parse_resp("*1 \r\n$4\r\nPING\r\n"), Err(ParseError::InvalidCount));
    assert_eq!(
        parse_resp("*18446744073709551616\r\n$4\r\nPING\r\n"),
        Err(ParseError::InvalidCount)
    );
}

#[test]
fn parse_does_not_hold_the_count_against_the_elements() {
    assert_eq!(parse_resp("*0\r\n$4\r\nPING\r\n"), Ok(Request::Ping(Ping {})));
    assert_eq!(parse_resp("*7\r\n$4\r\nPING\r\n"), Ok(Request::Ping(Ping {})));
    assert_eq!(parse_resp("*+1\r\n$4\r\nPING\r\n"), Ok(Request::Ping(Ping {})));
    assert_eq!(
        parse_resp("*18446744073709551615\r\n$4\r\nPING\r\n"),
        Ok(Request::Ping(Ping {}))
    );
}

#[test]
fn parse_a_name_header_that_declares_no_length() {
    assert_eq!(parse_resp("*1\r\n$x\r\nPING\r\n"), Err(ParseError::InvalidBulkHeader));
    assert_eq!(parse_resp("*1\r\n$\r\nPING\r\n"), Err(ParseError::InvalidBulkHeader));
    assert_eq!(parse_resp("*1\r\n\r\nPING\r\n"), Err(ParseError::InvalidBulkHeader));
    assert_eq!(parse_resp("*1\r\n$-4\r\nPING\r\n"), Err(ParseError::InvalidBulkHeader));
}

#[test]
fn parse_skips_the_first_character_of_the_name_header() {
    assert_eq!(parse_resp("*1\r\nx4\r\nPING\r\n"), Ok(Request::Ping(Ping {})));
    assert_eq!(parse_resp("*1\r\n\u{e9}4\r\nPING\r\n"), Ok(Request::Ping(Ping {})));
}

#[test]
fn parse_does_not_hold_a_length_against_its_element() {
    assert_eq!(parse_resp("*1\r\n$400\r\nPING\r\n"), Ok(Request::Ping(Ping {})));
    assert_eq!(
        parse_resp("*2\r\n$4\r\nECHO\r\n$99\r\nhey\r\n"),
        Ok(Request::Echo(Echo { args: words(&["hey"]) }))
    );
}

#[test]
fn parse_an_argument_header_that_is_none() {
    assert_eq!(
        parse_resp("*2\r\n$4\r\nECHO\r\nx3\r\nhey\r\n"),
        Err(ParseError::InvalidBulkHeader)
    );
    assert_eq!(
        parse_resp("*2\r\n$4\r\nECHO\r\n$zz\r\nhey\r\n"),
        Err(ParseError::InvalidBulkHeader)
    );
    assert_eq!(
        parse_resp("*2\r\n$4\r\nECHO\r\n\r\nhey\r\n"),
        Err(ParseError::InvalidBulkHeader)
    );
    assert_eq!(
        parse_resp("*3\r\n$3\r\nSET\r\n$1\r\nk\r\nv\r\n$1\r\nv\r\n"),
        Err(ParseError::InvalidBulkHeader)
    );
}

#[test]
fn parse_a_bad_header_before_an_unknown_name() {
    assert_eq!(
        parse_resp("*2\r\n$3\r\nFOO\r\nx3\r\nhey\r\n"),
        Err(ParseError::InvalidBulkHeader)
    );
}

#[test]
fn parse_an_unknown_command() {
    assert_eq!(parse_resp("*1\r\n$3\r\nFOO\r\n"), Err(ParseError::UnknownCommand));
    assert_eq!(
        parse_resp("*3\r\n$3\r\nFOO\r\n$1\r\na\r\n$1\r\nb\r\n"),
        Err(ParseError::UnknownCommand)
    );
    assert_eq!(parse_resp("*1\r\n$0\r\n\r\n$1\r\na"), Err(ParseError::UnknownCommand));
    assert_eq!(parse_resp("*1\r\n$5\r\nPINGS\r\n"), Err(ParseError::UnknownCommand));
    assert_eq!(parse_resp("*1\r\n$5\r\n PING\r\n"), Err(ParseError::UnknownCommand));
}

#[test]
fn parse_ignores_a_last_line_without_a_partner() {
    assert_eq!(
        parse_resp("*2\r\n$4\r\nECHO\r\n$3\r\n"),
        Ok(Request::Echo(Echo { args: words(&[]) }))
    );
    assert_eq!(
        parse_resp("*2\r\n$4\r\nECHO\r\n$3\r\nhey\r\nrest"),
        Ok(Request::Echo(Echo { args: words(&["hey"]) }))
    );
    assert_eq!(
        parse_resp("*2\r\n$4\r\nECHO\r\n$3\r\nhey\r\n\0\0\0\0"),
        Ok(Request::Echo(Echo { args: words(&["hey"]) }))
    );
    assert_eq!(parse_resp("*1\r\n$4\r\nPING\r\n\0\0\0\0"), Ok(Request::Ping(Ping {})));
}

#[test]
fn parse_lines_that_end_in_a_line_feed_alone() {
    assert_eq!(
        parse_resp("*2\n$4\nECHO\n$3\nhey\n"),
        Ok(Request::Echo(Echo { args: words(&["hey"]) }))
    );
}

#[test]
fn parse_keeps_a_carriage_return_that_ends_no_line() {
    assert_eq!(
        parse_resp("*2\r\n$4\r\nECHO\r\n$3\r\na\rb\r\r\n$1\r\nz"),
        Ok(Request::Echo(Echo { args: words(&["a\rb\r", "z"]) }))
    );
}

#[test]
fn parse_an_empty_argument() {
    assert_eq!(
        parse_resp("*3\r\n$3\r\nSET\r\n$0\r\n\r\n$1\r\nv\r\n"),
        Ok(Request::SetValue(SetCommand::new(words(&["", "v"]))))
    );
}

#[test]
fn parse_arguments_of_any_script() {
    assert_eq!(
        parse_resp("*2\r\n$4\r\nECHO\r\n$7\r\nh\u{e9}llo \u{1f600}\r\n"),
        Ok(Request::Echo(Echo { args: words(&["h\u{e9}llo \u{1f600}"]) }))
    );
}

#[test]
fn parse_drops_the_arguments_of_ping_and_info() {
    assert_eq!(parse_resp("*2\r\n$4\r\nPING\r\n$1\r\nx\r\n"), Ok(Request::Ping(Ping {})));
    assert_eq!(
        parse_resp("*2\r\n$4\r\nINFO\r\n$1\r\nx\r\n"),
        Ok(Request::Info(InfoCommand::new()))
    );
}

#[test]
fn parse_takes_away_white_space_at_the_end_only() {
    assert_eq!(
        parse_resp("*2\r\n$4\r\nECHO\r\n$3\r\n a \r\n$1\r\nb \t\r\n\r\n"),
        Ok(Request::Echo(Echo { args: words(&[" a ", "b"]) }))
    );
}

#[test]
fn parse_errors_have_their_texts() {
    assert_eq!(ParseError::EmptyInput.message(), "Empty input");
    assert_eq!(ParseError::InvalidArray.message(), "Invalid RESP array");
    assert_eq!(ParseError::Malformed.message(), "Invalid input");
    assert_eq!(ParseError::InvalidCount.message(), "Invalid command count");
    assert_eq!(ParseError::InvalidBulkHeader.message(), "Invalid bulk string");
    assert_eq!(ParseError::UnknownCommand.message(), "Unknown command");
}

#[test]
fn commands_are_found_by_name() {
    let find = |s: &str| find_command(&s.chars().collect::<Vec<char>>());
    assert_eq!(find("ping"), Some(CommandName::Ping));
    assert_eq!(find("ECHO"), Some(CommandName::Echo));
    assert_eq!(find("Get"), Some(CommandName::Get));
    assert_eq!(find("sEt"), Some(CommandName::SetValue));
    assert_eq!(find("rpush"), Some(CommandName::Rpush));
    assert_eq!(find("LPUSH"), Some(CommandName::Lpush));
    assert_eq!(find("lrange"), Some(CommandName::Lrange));
    assert_eq!(find("llen"), Some(CommandName::Llen));
    assert_eq!(find("lpop"), Some(CommandName::Lpop));
    assert_eq!(find("info"), Some(CommandName::Info));
    assert_eq!(find("foo"), None);
    assert_eq!(find(""), None);
}

#[test]
fn command_names_are_in_small_letters() {
    assert_eq!(CommandName::Ping.as_str(), "ping");
    assert_eq!(CommandName::Echo.as_str(), "echo");
    assert_eq!(CommandName::Get.as_str(), "get");
    assert_eq!(CommandName::SetValue.as_str(), "set");
    assert_eq!(CommandName::Rpush.as_str(), "rpush");
    assert_eq!(CommandName::Lpush.as_str(), "lpush");
    assert_eq!(CommandName::Lrange.as_str(), "lrange");
    assert_eq!(CommandName::Llen.as_str(), "llen");
    assert_eq!(CommandName::Lpop.as_str(), "lpop");
    assert_eq!(CommandName::Info.as_str(), "info");
}
