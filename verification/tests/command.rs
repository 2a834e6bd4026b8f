//! The command line.

use splitway::command::{parse_args, Command, CommandParser, USAGE};

fn parse(args: &[&str]) -> Result<Command, String> {
    parse_args(&args.iter().map(|s| s.to_string()).collect())
}

#[test]
fn run_without_flags_is_all_none() {
    let cmd = parse(&["splitway-daemon", "run"]).unwrap();
    assert!(matches!(
        cmd,
        Command::Run {
            config: None,
            socket_group: None
        }
    ));
}

#[test]
fn run_with_config_space_form() {
    let cmd = parse(&["splitway-daemon", "run", "--config", "/etc/sw.json"]).unwrap();
    match cmd {
        Command::Run {
            config: Some(p),
            socket_group: None,
        } => assert_eq!(p, "/etc/sw.json"),
        _ => panic!("expected Run with a config path and no socket group"),
    }
}

#[test]
fn run_with_config_equals_form() {
    let cmd = parse(&["splitway-daemon", "run", "--config=/etc/sw.json"]).unwrap();
    match cmd {
        Command::Run {
            config: Some(p), ..
        } => assert_eq!(p, "/etc/sw.json"),
        _ => panic!("expected Run with a config path"),
    }
}

#[test]
fn run_with_socket_group_space_form() {
    let cmd = parse(&["splitway-daemon", "run", "--socket-group", "splitway"]).unwrap();
    match cmd {
        Command::Run {
            config: None,
            socket_group: Some(g),
        } => assert_eq!(g, "splitway"),
        _ => panic!("expected Run with a socket group and no config"),
    }
}

#[test]
fn run_with_socket_group_equals_form() {
    let cmd = parse(&["splitway-daemon", "run", "--socket-group=splitway"]).unwrap();
    match cmd {
        Command::Run {
            socket_group: Some(g),
            ..
        } => assert_eq!(g, "splitway"),
        _ => panic!("expected Run with a socket group"),
    }
}

#[test]
fn run_accepts_both_flags_in_either_order() {
    let cmd = parse(&[
        "splitway-daemon",
        "run",
        "--socket-group",
        "splitway",
        "--config",
        "/etc/sw.json",
    ])
    .unwrap();
    match cmd {
        Command::Run {
            config: Some(p),
            socket_group: Some(g),
        } => {
            assert_eq!(p, "/etc/sw.json");
            assert_eq!(g, "splitway");
        }
        _ => panic!("expected Run with both a config and a socket group"),
    }
}

#[test]
fn revert_accepts_config() {
    let cmd = parse(&["splitway-daemon", "revert", "--config", "/tmp/c.json"]).unwrap();
    match cmd {
        Command::Revert { config: Some(p) } => assert_eq!(p, "/tmp/c.json"),
        _ => panic!("expected Revert with a config path"),
    }
}

#[test]
fn revert_rejects_socket_group() {
    // `revert` never binds the socket, so --socket-group would be a silent
    // no-op; reject it rather than accept a flag that does nothing.
    assert!(parse(&["splitway-daemon", "revert", "--socket-group", "splitway"]).is_err());
}

#[test]
fn status_rejects_config() {
    assert!(parse(&["splitway-daemon", "status", "--config", "/x"]).is_err());
}

#[test]
fn status_rejects_socket_group() {
    assert!(parse(&["splitway-daemon", "status", "--socket-group", "splitway"]).is_err());
}

#[test]
fn status_without_config_is_ok() {
    assert!(matches!(
        parse(&["splitway-daemon", "status"]).unwrap(),
        Command::Status
    ));
}

#[test]
fn missing_command_is_error() {
    assert!(parse(&["splitway-daemon"]).is_err());
}

#[test]
fn unknown_command_is_error() {
    assert!(parse(&["splitway-daemon", "frobnicate"]).is_err());
}

#[test]
fn config_without_value_is_error() {
    assert!(parse(&["splitway-daemon", "run", "--config"]).is_err());
    assert!(parse(&["splitway-daemon", "run", "--config="]).is_err());
}

#[test]
fn socket_group_without_value_is_error() {
    assert!(parse(&["splitway-daemon", "run", "--socket-group"]).is_err());
    assert!(parse(&["splitway-daemon", "run", "--socket-group="]).is_err());
}

#[test]
fn unexpected_trailing_argument_is_error() {
    assert!(parse(&["splitway-daemon", "run", "extra"]).is_err());
}

#[test]
fn duplicate_config_is_error() {
    // A repeated --config is almost always a mistake; reject it rather than
    // silently letting the last occurrence win.
    assert!(parse(&["splitway-daemon", "run", "--config", "/a", "--config", "/b"]).is_err());
    assert!(parse(&["splitway-daemon", "run", "--config=/a", "--config=/b"]).is_err());
}

#[test]
fn duplicate_socket_group_is_error() {
    assert!(parse(&[
        "splitway-daemon",
        "run",
        "--socket-group",
        "a",
        "--socket-group",
        "b"
    ])
    .is_err());
    assert!(parse(&[
        "splitway-daemon",
        "run",
        "--socket-group=a",
        "--socket-group=b"
    ])
    .is_err());
}


fn message(args: &[&str]) -> String {
    match parse(args) {
        Err(e) => e,
        Ok(c) => panic!("expected an error, got {c:?}"),
    }
}

#[test]
fn each_mistake_has_its_own_message() {
    assert_eq!(message(&["d"]), format!("no command provided\n{USAGE}"));
    assert_eq!(message(&["d", "go"]), format!("unknown command: go\n{USAGE}"));
    assert_eq!(message(&["d", "run", "--config"]), format!("--config requires an argument\n{USAGE}"));
    assert_eq!(
        message(&["d", "run", "--socket-group="]),
        format!("--socket-group requires a non-empty value\n{USAGE}")
    );
    assert_eq!(message(&["d", "run", "x"]), format!("unexpected argument: x\n{USAGE}"));
    assert_eq!(
        message(&["d", "run", "--config=a", "--config=b"]),
        format!("--config may only be given once\n{USAGE}")
    );
    assert_eq!(
        message(&["d", "status", "--config=a"]),
        format!(
            "`status` queries the running daemon over IPC and takes no --config/--socket-group\n{USAGE}"
        )
    );
    assert_eq!(
        message(&["d", "revert", "--socket-group=g"]),
        format!("`revert` does not bind the control socket and takes no --socket-group\n{USAGE}")
    );
}

#[test]
fn both_forms_of_a_flag_agree() {
    assert_eq!(
        parse(&["d", "run", "--config", "a=b", "--socket-group=g"]),
        parse(&["d", "run", "--config=a=b", "--socket-group", "g"])
    );
}

#[test]
fn the_order_of_the_flags_does_not_matter() {
    assert_eq!(
        parse(&["d", "run", "--config=c", "--socket-group=g"]),
        parse(&["d", "run", "--socket-group=g", "--config=c"])
    );
}

#[test]
fn an_argument_list_parses_itself() {
    let args: Vec<String> = vec!["d".to_string(), "status".to_string()];
    assert_eq!(args.parse_command(), Ok(Command::Status));
}
