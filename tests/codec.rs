use redis_lite::command::{AdminCommand, RedisCommand, RedisCommandResponse};
use redis_lite::parser::{ParseError, RedisCommandParser};

fn parse0(s: &str) -> Result<RedisCommand, ParseError> {
    RedisCommandParser::parse_at(s, 0)
}

#[test]
fn parses_array_ping() {
    assert_eq!(parse0("*1\r\n$4\r\nPING\r\n"), Ok(RedisCommand::Ping));
}

#[test]
fn verbs_ignore_ascii_case() {
    assert_eq!(parse0("*1\r\n$4\r\npInG\r\n"), Ok(RedisCommand::Ping));
    assert_eq!(parse0("*1\r\n$4\r\npong\r\n"), Ok(RedisCommand::Pong));
}

#[test]
fn parses_set_and_get() {
    assert_eq!(
        parse0("*3\r\n$3\r\nSET\r\n$3\r\nfoo\r\n$3\r\nbar\r\n"),
        Ok(RedisCommand::SetKey("foo".to_string(), "bar".to_string(), None))
    );
    assert_eq!(parse0("*2\r\n$3\r\nGET\r\n$3\r\nfoo\r\n"), Ok(RedisCommand::Get("foo".to_string())));
}

#[test]
fn px_expiry_is_made_absolute() {
    let frame = "*5\r\n$3\r\nSET\r\n$3\r\nfoo\r\n$3\r\nbar\r\n$2\r\npx\r\n$2\r\n10\r\n";
    assert_eq!(
        RedisCommandParser::parse_at(frame, 1000),
        Ok(RedisCommand::SetKey("foo".to_string(), "bar".to_string(), Some(1010)))
    );
}

#[test]
fn set_with_other_option_is_refused() {
    let frame = "*5\r\n$3\r\nSET\r\n$1\r\nk\r\n$1\r\nv\r\n$2\r\nEX\r\n$2\r\n10\r\n";
    assert_eq!(parse0(frame), Err(ParseError::UnknownOption));
}

#[test]
fn set_takes_two_or_four_arguments() {
    let four = "*4\r\n$3\r\nSET\r\n$1\r\nk\r\n$1\r\nv\r\n$2\r\nPX\r\n";
    assert_eq!(parse0(four), Err(ParseError::WrongArity));
    let six = "*6\r\n$3\r\nSET\r\n$1\r\nk\r\n$1\r\nv\r\n$2\r\nPX\r\n$2\r\n10\r\n$1\r\nx\r\n";
    assert_eq!(parse0(six), Err(ParseError::WrongArity));
    let lower_px = "*5\r\n$3\r\nset\r\n$1\r\nk\r\n$1\r\nv\r\n$2\r\npX\r\n$1\r\n7\r\n";
    assert_eq!(parse0(lower_px), Ok(RedisCommand::SetKey("k".to_string(), "v".to_string(), Some(7))));
}

#[test]
fn header_lengths_are_not_checked() {
    assert_eq!(parse0("*2\r\n$99\r\nECHO\r\n$1\r\nhello\r\n"), Ok(RedisCommand::Echo("hello".to_string())));
}

#[test]
fn nul_characters_and_empty_lines_are_dropped() {
    assert_eq!(parse0("*1\r\n\r\n$4\r\nPI\0NG\r\n\0\0\0"), Ok(RedisCommand::Ping));
    assert_eq!(parse0("*1\r\0\n$4\r\nPING"), Ok(RedisCommand::Ping));
}

#[test]
fn bulk_string_form_takes_no_arguments() {
    assert_eq!(parse0("$4\r\nPING\r\n"), Ok(RedisCommand::Ping));
    assert_eq!(parse0("$4\r\nINFO\r\n"), Ok(RedisCommand::Info(None)));
    assert_eq!(parse0("$8\r\nREPLCONF\r\n"), Ok(RedisCommand::Replconf(vec![])));
    assert_eq!(parse0("$4\r\nECHO\r\n$2\r\nhi\r\n"), Err(ParseError::NotEnoughArguments));
}

#[test]
fn parses_info_and_replconf() {
    assert_eq!(
        parse0("*2\r\n$4\r\ninfo\r\n$11\r\nreplication\r\n"),
        Ok(RedisCommand::Info(Some("replication".to_string())))
    );
    assert_eq!(
        parse0("*3\r\n$8\r\nREPLCONF\r\n$4\r\ncapa\r\n$6\r\npsync2\r\n"),
        Ok(RedisCommand::Replconf(vec!["capa".to_string(), "psync2".to_string()]))
    );
}

#[test]
fn parses_admin_commands() {
    assert_eq!(
        parse0("*3\r\n$9\r\nREPLICATE\r\n$9\r\nreplicate\r\n$4\r\ndata\r\n"),
        Ok(RedisCommand::Admin(AdminCommand::Replicate("data".to_string())))
    );
    assert_eq!(
        parse0("*3\r\n$8\r\nADDSLAVE\r\n$8\r\naddslave\r\n$14\r\n127.0.0.1:6380\r\n"),
        Ok(RedisCommand::Admin(AdminCommand::AddSlave("127.0.0.1:6380".to_string())))
    );
}

#[test]
fn each_parse_error_has_its_input() {
    assert_eq!(parse0(""), Err(ParseError::EmptyBuffer));
    assert_eq!(parse0("\0\r\n\r\n"), Err(ParseError::EmptyBuffer));
    assert_eq!(parse0("hello\r\n"), Err(ParseError::InvalidFormat));
    assert_eq!(parse0("*2\r\n"), Err(ParseError::InvalidFormat));
    assert_eq!(parse0("*1\r\nPING\r\n"), Err(ParseError::ExpectedPrefix('$')));
    assert_eq!(parse0("*x\r\n$4\r\nPING\r\n"), Err(ParseError::InvalidArrayLength));
    assert_eq!(parse0("*0\r\n"), Err(ParseError::EmptyArray));
    assert_eq!(parse0("$x\r\nPING\r\n"), Err(ParseError::InvalidBulkLength));
    assert_eq!(parse0("*1\r\n$4\r\n"), Err(ParseError::CommandNotFound));
    assert_eq!(parse0("$4\r\n"), Err(ParseError::CommandNotFound));
    assert_eq!(parse0("*1\r\n$4\r\nNOPE\r\n"), Err(ParseError::UnknownCommand));
    assert_eq!(parse0("*2\r\n$4\r\nECHO\r\n$3\r\n"), Err(ParseError::MissingArgument));
    assert_eq!(parse0("*2\r\n$4\r\nECHO\r\n"), Err(ParseError::InvalidFormat));
    assert_eq!(parse0("*1\r\n$4\r\nECHO\r\n"), Err(ParseError::NotEnoughArguments));
    assert_eq!(parse0("*2\r\n$3\r\nSET\r\n$1\r\nk\r\n"), Err(ParseError::NotEnoughArguments));
    assert_eq!(
        parse0("*5\r\n$3\r\nSET\r\n$1\r\nk\r\n$1\r\nv\r\n$2\r\nPX\r\n$2\r\nab\r\n"),
        Err(ParseError::InvalidExpiry)
    );
    assert_eq!(
        RedisCommandParser::parse_at(
            "*5\r\n$3\r\nSET\r\n$1\r\nk\r\n$1\r\nv\r\n$2\r\nPX\r\n$2\r\n10\r\n",
            u64::MAX - 5
        ),
        Err(ParseError::InvalidExpiry)
    );
    assert_eq!(
        parse0("*3\r\n$9\r\nREPLICATE\r\n$3\r\nfoo\r\n$3\r\nbar\r\n"),
        Err(ParseError::UnknownAdminCommand)
    );
    assert_eq!(parse0("*2\r\n$9\r\nREPLICATE\r\n$3\r\nfoo\r\n"), Err(ParseError::NotEnoughArguments));
}

#[test]
fn error_messages() {
    assert_eq!(ParseError::UnknownCommand.message(), "Unknown Redis command");
    assert_eq!(ParseError::EmptyBuffer.message(), "Empty buffer");
}

#[test]
fn parse_against_the_clock() {
    assert_eq!(RedisCommandParser::parse("*2\r\n$3\r\nGET\r\n$3\r\nfoo\r\n"), Ok(RedisCommand::Get("foo".to_string())));
    let frame = "*5\r\n$3\r\nSET\r\n$1\r\nk\r\n$1\r\nv\r\n$2\r\nPX\r\n$2\r\n10\r\n";
    match RedisCommandParser::parse(frame) {
        Ok(RedisCommand::SetKey(k, v, Some(t))) => {
            assert_eq!(k, "k");
            assert_eq!(v, "v");
            assert!(t > 1_600_000_000_000);
        }
        other => panic!("unexpected {:?}", other),
    }
}

#[test]
fn encodes_commands_as_arrays() {
    assert_eq!(RedisCommand::Ping.to_resp2(), "*1\r\n$4\r\nPING\r\n");
    assert_eq!(
        RedisCommand::SetKey("foo".to_string(), "bar".to_string(), None).to_resp2(),
        "*3\r\n$3\r\nSET\r\n$3\r\nfoo\r\n$3\r\nbar\r\n"
    );
    assert_eq!(
        RedisCommand::SetKey("foo".to_string(), "bar".to_string(), Some(1234)).to_resp2(),
        "*5\r\n$3\r\nSET\r\n$3\r\nfoo\r\n$3\r\nbar\r\n$2\r\nPX\r\n$4\r\n1234\r\n"
    );
    assert_eq!(
        RedisCommand::Replconf(vec!["capa".to_string(), "psync2".to_string()]).to_resp2(),
        "*3\r\n$8\r\nREPLCONF\r\n$4\r\ncapa\r\n$6\r\npsync2\r\n"
    );
    assert_eq!(
        RedisCommand::Admin(AdminCommand::AddSlave("h:1".to_string())).to_resp2(),
        "*3\r\n$8\r\nADDSLAVE\r\n$8\r\naddslave\r\n$3\r\nh:1\r\n"
    );
}

#[test]
fn header_counts_utf8_bytes() {
    assert_eq!(RedisCommand::Echo("é".to_string()).to_resp2(), "*2\r\n$4\r\nECHO\r\n$2\r\né\r\n");
    assert_eq!(RedisCommandResponse::new("日本".to_string()).message, "$6\r\n日本\r\n");
}

#[test]
fn encoding_then_parsing_gives_the_command_back() {
    let commands = vec![
        RedisCommand::Ping,
        RedisCommand::Pong,
        RedisCommand::Echo("hello world".to_string()),
        RedisCommand::Get("key".to_string()),
        RedisCommand::SetKey("k".to_string(), "v".to_string(), None),
        RedisCommand::SetKey("k".to_string(), "v".to_string(), Some(1_700_000_000_000)),
        RedisCommand::Info(None),
        RedisCommand::Info(Some("replication".to_string())),
        RedisCommand::Replconf(vec![]),
        RedisCommand::Replconf(vec!["listening-port".to_string(), "6380".to_string()]),
        RedisCommand::Admin(AdminCommand::Replicate("*1\r".to_string())),
        RedisCommand::Admin(AdminCommand::AddSlave("127.0.0.1:6380".to_string())),
    ];
    for c in commands {
        assert_eq!(parse0(&c.to_resp2()), Ok(c.clone()));
        let again = parse0(&c.to_resp2()).unwrap();
        assert_eq!(parse0(&again.to_resp2()), Ok(c));
    }
}

#[test]
fn without_expiry_round_trip_holds_at_any_time() {
    let c = RedisCommand::SetKey("k".to_string(), "v".to_string(), None);
    assert_eq!(RedisCommandParser::parse_at(&c.to_resp2(), 987_654), Ok(c));
}

#[test]
fn responses() {
    assert_eq!(RedisCommandResponse::new("PONG".to_string()).message, "$4\r\nPONG\r\n");
    assert_eq!(RedisCommandResponse::new(String::new()).message, "$0\r\n\r\n");
    assert_eq!(RedisCommandResponse::null().message, "$-1\r\n");
    assert_eq!(RedisCommandResponse::error("bad".to_string()).message, "-bad\r\n");
    assert_eq!(RedisCommandResponse::status("OK".to_string()).message, "+OK\r\n");
}

#[test]
fn only_set_is_a_write() {
    assert!(RedisCommand::SetKey("k".to_string(), "v".to_string(), None).is_write_operation());
    assert!(!RedisCommand::Get("k".to_string()).is_write_operation());
    assert!(!RedisCommand::Ping.is_write_operation());
}

#[test]
fn text_form_of_commands() {
    assert_eq!(RedisCommand::Ping.to_text(), "PING");
    assert_eq!(RedisCommand::Echo("hi".to_string()).to_text(), "ECHO hi");
    assert_eq!(RedisCommand::SetKey("k".to_string(), "v".to_string(), None).to_text(), "SET k v");
    assert_eq!(RedisCommand::SetKey("k".to_string(), "v".to_string(), Some(42)).to_text(), "SET k v PX 42");
    assert_eq!(RedisCommand::Info(None).to_text(), "INFO");
    assert_eq!(RedisCommand::Info(Some("replication".to_string())).to_text(), "INFO replication");
    assert_eq!(RedisCommand::Admin(AdminCommand::Replicate("x".to_string())).to_text(), "REPLICATE x");
    assert_eq!(RedisCommand::Admin(AdminCommand::AddSlave("h:1".to_string())).to_text(), "ADDSLAVE h:1");
    assert_eq!(RedisCommand::Replconf(vec![]).to_text(), "REPLCONF ");
    assert_eq!(
        RedisCommand::Replconf(vec!["capa".to_string(), "psync2".to_string()]).to_text(),
        "REPLCONF capa psync2"
    );
}
