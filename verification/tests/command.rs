use logos_engine::command::{parse_command, Command, CommandError};
use logos_engine::hash::HashError;
use logos_engine::protocol::Request;

fn args(list: &[&str]) -> Vec<String> {
    list.iter().map(|s| s.to_string()).collect()
}

#[test]
fn daemon_takes_default_sockets() {
    match parse_command(&args(&["daemon"])) {
        Ok(Command::Daemon { socket, sema, nomos }) => {
            assert_eq!(socket, "/tmp/new-language-engine/logos.sock");
            assert_eq!(sema, "/tmp/new-language-engine/sema.sock");
            assert_eq!(nomos, "/tmp/new-language-engine/nomos.sock");
        }
        other => panic!("unexpected {:?}", other),
    }
}

#[test]
fn daemon_takes_given_sockets_in_order() {
    match parse_command(&args(&["daemon", "/a", "/b"])) {
        Ok(Command::Daemon { socket, sema, nomos }) => {
            assert_eq!(socket, "/a");
            assert_eq!(sema, "/b");
            assert_eq!(nomos, "/tmp/new-language-engine/nomos.sock");
        }
        other => panic!("unexpected {:?}", other),
    }
}

#[test]
fn project_builds_request_for_scope_one() {
    let hash = "ff".repeat(32);
    match parse_command(&args(&["project", "/s", &hash])) {
        Ok(Command::Project { socket, request: Request::ProjectRust { scope, logos } }) => {
            assert_eq!(socket, "/s");
            assert_eq!(scope.0, 1);
            assert_eq!(logos.0, [0xff; 32]);
        }
        other => panic!("unexpected {:?}", other),
    }
}

#[test]
fn project_needs_socket_then_hash() {
    assert!(matches!(parse_command(&args(&["project"])), Err(CommandError::MissingSocket)));
    assert!(matches!(parse_command(&args(&["project", "/s"])), Err(CommandError::MissingHash)));
}

#[test]
fn project_refuses_bad_hash() {
    assert!(matches!(
        parse_command(&args(&["project", "/s", "abc"])),
        Err(CommandError::BadHash(HashError::WrongLength))
    ));
}

#[test]
fn subscribe_needs_socket() {
    assert!(matches!(parse_command(&args(&["subscribe"])), Err(CommandError::MissingSocket)));
    match parse_command(&args(&["subscribe", "/s", "extra"])) {
        Ok(Command::Subscribe { socket, request: Request::Subscribe { scope } }) => {
            assert_eq!(socket, "/s");
            assert_eq!(scope.0, 1);
        }
        other => panic!("unexpected {:?}", other),
    }
}

#[test]
fn unknown_or_missing_command_is_usage_error() {
    assert!(matches!(parse_command(&args(&[])), Err(CommandError::Usage)));
    assert!(matches!(parse_command(&args(&["serve"])), Err(CommandError::Usage)));
    assert!(matches!(parse_command(&args(&["Daemon"])), Err(CommandError::Usage)));
}
