use demc::irc_msg::{last_two_are_crlf, privmsg_sender_and_message, Command, IrcMessage, Params, Prefix};

#[test]
fn parses_a_full_privmsg() {
    let line = b":alice!al@example.org PRIVMSG #chan :hello world\r\n";
    let msg = IrcMessage::parse(line).unwrap();
    let pre = msg.prefix.as_ref().unwrap();
    assert_eq!(pre.servername_nick, b"alice".to_vec());
    assert_eq!(pre.user.as_ref().unwrap(), &b"al".to_vec());
    assert_eq!(pre.host.as_ref().unwrap(), &b"example.org".to_vec());
    assert_eq!(msg.command, Command::Privmsg);
    let params = msg.params.as_ref().unwrap();
    assert_eq!(params.0.len(), 2);
    assert_eq!(params.0[0], b"#chan".to_vec());
    assert_eq!(params.0[1], b"hello world".to_vec());

    let (sender, payload) = privmsg_sender_and_message(&msg).unwrap();
    assert_eq!(sender, b"alice".to_vec());
    assert_eq!(payload, b"hello world".to_vec());
}

#[test]
fn parses_ping_with_trailing_only() {
    let msg = IrcMessage::parse(b"PING :tmi.example.org\r\n").unwrap();
    assert!(msg.prefix.is_none());
    assert_eq!(msg.command, Command::Ping);
    let params = msg.params.unwrap();
    assert_eq!(params.0.len(), 1);
    assert_eq!(params.0[0], b"tmi.example.org".to_vec());
}

#[test]
fn numeric_commands_are_recognised() {
    let msg = IrcMessage::parse(b":srv 001 nick :welcome\r\n").unwrap();
    assert_eq!(msg.command, Command::ReplyWelcome);
    let msg = IrcMessage::parse(b":srv 366 nick #chan :end\r\n").unwrap();
    assert_eq!(msg.command, Command::ReplyEndOfNames);
}

#[test]
fn rejects_lines_without_terminator_or_command() {
    assert!(matches!(IrcMessage::parse(b"PING :x"), Err(1)));
    assert!(matches!(IrcMessage::parse(b"WHOIS alice\r\n"), Err(2)));
    assert!(matches!(IrcMessage::parse(b":\r\n"), Err(3)));
}

#[test]
fn serializes_credentials_and_pong() {
    let pong = IrcMessage { prefix: None, command: Command::Pong, params: None };
    assert_eq!(pong.to_bytes(), b"PONG \r\n".to_vec());

    let pass = IrcMessage {
        prefix: None,
        command: Command::Pass,
        params: Some(Params(vec![b"hunter".to_vec()])),
    };
    assert_eq!(pass.to_bytes(), b"PASS :hunter\r\n".to_vec());

    let msg = IrcMessage {
        prefix: Some(Prefix {
            servername_nick: b"bot".to_vec(),
            user: None,
            host: None,
        }),
        command: Command::Privmsg,
        params: Some(Params(vec![b"#chan".to_vec(), b"hi there".to_vec()])),
    };
    assert_eq!(msg.to_bytes(), b":bot PRIVMSG #chan :hi there\r\n".to_vec());
}

#[test]
fn crlf_detection_checks_the_tail() {
    assert!(last_two_are_crlf(&b"abc\r\n".to_vec()));
    assert!(!last_two_are_crlf(&b"abc\r".to_vec()));
    assert!(!last_two_are_crlf(&b"\n".to_vec()));
    assert!(!last_two_are_crlf(&b"abc\n\r".to_vec()));
}

#[test]
fn command_words_round_trip() {
    assert_eq!(Command::from_bytes(b"PRIVMSG"), Ok(Command::Privmsg));
    assert_eq!(Command::from_bytes(b"001"), Ok(Command::ReplyWelcome));
    assert_eq!(Command::from_bytes(b"privmsg"), Err(1));
    assert_eq!(Command::Privmsg.to_bytes(), b"PRIVMSG".to_vec());
}

#[test]
fn privmsg_extraction_reports_missing_pieces() {
    let no_prefix = IrcMessage {
        prefix: None,
        command: Command::Privmsg,
        params: Some(Params(vec![b"#chan".to_vec(), b"hi".to_vec()])),
    };
    assert_eq!(privmsg_sender_and_message(&no_prefix), Err(1));

    let no_params = IrcMessage {
        prefix: Some(Prefix { servername_nick: b"a".to_vec(), user: None, host: None }),
        command: Command::Privmsg,
        params: None,
    };
    assert_eq!(privmsg_sender_and_message(&no_params), Err(3));

    let short = IrcMessage {
        prefix: Some(Prefix { servername_nick: b"a".to_vec(), user: None, host: None }),
        command: Command::Privmsg,
        params: Some(Params(vec![b"#chan".to_vec()])),
    };
    assert_eq!(privmsg_sender_and_message(&short), Err(2));
}
