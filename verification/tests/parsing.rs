use artifex::batch::Batch;
use artifex::command::{Command, Error};

#[test]
fn parse_valid_string() {
    let res = Batch::from_str("EXECUTE: date -u; UPGRADE");
    assert!(res.is_ok());
    assert_eq!(
        res.unwrap(),
        Batch {
            commands: vec![Command::Execute("date -u".to_string()), Command::Upgrade]
        }
    );
}

const BATCH_VALID: &str = "\nINSPECT\n# Comment\nEXECUTE: date -u\nUPGRADE\n";

#[test]
fn parse_valid_text() {
    let res = Batch::from_text(BATCH_VALID);
    assert!(res.is_ok());
    assert_eq!(
        res.unwrap(),
        Batch {
            commands: vec![
                Command::Inspect,
                Command::Execute("date -u".to_string()),
                Command::Upgrade
            ]
        }
    );
}

#[test]
fn parse_valid_execute() {
    let res = Command::from_str("EXECUTE: date -u");
    assert!(res.is_ok());
    assert_eq!(res.unwrap(), Command::Execute("date -u".to_string()))
}

#[test]
fn parse_empty_string() {
    let res = Command::from_str("");
    assert!(matches!(res, Err(Error::EmptyString)));
}

#[test]
fn parse_missing_argument() {
    let res = Command::from_str("EXECUTE");
    assert!(matches!(res, Err(Error::MissingArgument)));
}

#[test]
fn parse_two_colons_missing_argument() {
    let res = Command::from_str("EXECUTE: echo a: b");
    assert!(matches!(res, Err(Error::MissingArgument)));
}

#[test]
fn parse_unknown_command() {
    let res = Command::from_str("FOO");
    match res {
        Err(Error::UnknownCommand(text)) => assert_eq!(text, "FOO"),
        _ => panic!("expected an unknown-command error"),
    }
}

#[test]
fn parse_trims_whitespace() {
    let res = Command::from_str("  INSPECT  ");
    assert!(res.is_ok());
    assert_eq!(res.unwrap(), Command::Inspect);
    let res = Command::from_str("\tUPGRADE\n");
    assert!(res.is_ok());
    assert_eq!(res.unwrap(), Command::Upgrade);
}

#[test]
fn parse_execute_trims_argument() {
    let res = Command::from_str("EXECUTE:   uptime  ");
    assert!(res.is_ok());
    assert_eq!(res.unwrap(), Command::Execute("uptime".to_string()));
}

#[test]
fn parse_batch_aborts_on_first_error() {
    let res = Batch::from_str("INSPECT; FOO; UPGRADE");
    match res {
        Err(artifex::Error::Syntax(Error::UnknownCommand(text))) => {
            assert_eq!(text, " FOO")
        }
        _ => panic!("expected a syntax error"),
    }
}

#[test]
fn parse_trailing_semicolon_is_error() {
    let res = Batch::from_str("INSPECT;");
    assert!(matches!(
        res,
        Err(artifex::Error::Syntax(Error::EmptyString))
    ));
}

#[test]
fn parse_empty_batch_is_error() {
    let res = Batch::from_str("");
    assert!(matches!(
        res,
        Err(artifex::Error::Syntax(Error::EmptyString))
    ));
}

#[test]
fn parse_text_skips_crlf_lines() {
    let res = Batch::from_text("INSPECT\r\n# note\r\n\r\nUPGRADE");
    assert!(res.is_ok());
    assert_eq!(
        res.unwrap(),
        Batch {
            commands: vec![Command::Inspect, Command::Upgrade]
        }
    );
}

#[test]
fn command_round_trip_text() {
    let commands = vec![
        Command::Execute("date -u".to_string()),
        Command::Inspect,
        Command::Upgrade,
    ];
    for command in commands {
        let text = command.to_text();
        let parsed = Command::from_str(&text);
        assert!(parsed.is_ok());
        assert_eq!(parsed.unwrap(), command);
    }
}

#[test]
fn command_canonical_text() {
    assert_eq!(
        Command::Execute("date -u".to_string()).to_text(),
        "EXECUTE: date -u"
    );
    assert_eq!(Command::Inspect.to_text(), "INSPECT");
    assert_eq!(Command::Upgrade.to_text(), "UPGRADE");
}

#[test]
fn error_messages() {
    assert_eq!(Error::EmptyString.message(), "Empty string");
    assert_eq!(Error::MissingArgument.message(), "Missing argument");
    assert_eq!(
        Error::UnknownCommand("FOO".to_string()).message(),
        "Unknown command: FOO"
    );
    assert_eq!(
        artifex::Error::Syntax(Error::UnknownCommand("FOO".to_string())).message(),
        "Syntax error: Unknown command: FOO"
    );
    assert_eq!(
        artifex::Error::Rpc("connection lost".to_string()).message(),
        "RPC error: connection lost"
    );
}

#[test]
fn split_words_behaviour() {
    let words = artifex::text::split_words_str("date  -u ");
    assert_eq!(words, vec!["date".to_string(), "-u".to_string()]);
    let none = artifex::text::split_words_str("   ");
    assert!(none.is_empty());
}
