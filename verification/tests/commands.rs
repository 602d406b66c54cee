use unison_editor::commands::{check_path_traversal, AppState, ServicePorts, SessionStart};
use unison_editor::ucm_pty::{ReadOutcome, SessionCommand, SessionState};

#[test]
fn ports_before_any_session() {
    let state = AppState::default();
    assert_eq!(state.get_service_ports(), ServicePorts { api_port: 5858, lsp_port: 5757, lsp_proxy_port: 5758 });
}

#[test]
fn terminal_commands_without_a_session_fail() {
    let mut state = AppState::default();
    assert_eq!(state.ucm_pty_write("x").err(), Some("UCM PTY not spawned".to_string()));
    assert_eq!(state.ucm_pty_resize(1, 1).err(), Some("UCM PTY not spawned".to_string()));
    assert_eq!(state.ucm_pty_switch_context("a", "b").err(), Some("UCM PTY not spawned".to_string()));
    assert_eq!(state.ucm_pty_get_context().err(), Some("UCM PTY not spawned".to_string()));
    assert!(state.ucm_pty_next_command().is_none());
    assert!(state.ucm_pty_on_read(ReadOutcome::Eof).is_none());
    assert!(state.ucm_pty_kill().is_none());
}

#[test]
fn session_start_hands_out_the_first_free_ports() {
    let mut state = AppState::default();
    let start = state.ucm_pty_spawn(|p| p == 5860 || p == 5761).unwrap();
    let expected = ServicePorts { api_port: 5860, lsp_port: 5757, lsp_proxy_port: 5761 };
    match start {
        SessionStart::Started { ports, proxy } => {
            assert_eq!(ports, expected);
            assert_eq!(proxy.listen_address(), "127.0.0.1:5761");
            assert_eq!(proxy.upstream_address(), "127.0.0.1:5757");
        }
        other => panic!("{:?}", other),
    }
    assert_eq!(state.get_service_ports(), expected);
    // A second start finds the session running and probes nothing.
    let again = state.ucm_pty_spawn(|_| panic!("no probe expected")).unwrap();
    assert!(matches!(again, SessionStart::AlreadyRunning(p) if p == expected));
}

#[test]
fn session_start_fails_without_a_free_port() {
    let mut state = AppState::default();
    assert_eq!(
        state.ucm_pty_spawn(|_| false).err(),
        Some("Could not find available port for UCM API server".to_string())
    );
    assert_eq!(
        state.ucm_pty_spawn(|p| p >= 5858 + 42).err(),
        Some("Could not find available port for LSP WebSocket proxy".to_string())
    );
    assert_eq!(state.get_service_ports().api_port, 5858);
    assert!(state.ucm_pty_write("x").is_err());
}

#[test]
fn ended_session_is_replaced_by_a_new_one() {
    let mut state = AppState::default();
    state.ucm_pty_spawn(|_| true).unwrap();
    state.ucm_pty_started();
    let step = state.ucm_pty_on_read(ReadOutcome::Eof).unwrap();
    assert_eq!(step.events.len(), 1);
    assert!(state.ucm_pty_write("x").is_err());
    let start = state.ucm_pty_spawn(|p| p >= 5800 && p != 5858).unwrap();
    assert!(matches!(start, SessionStart::Started { ports, .. } if ports.api_port == 5859 && ports.lsp_proxy_port == 5800));
    assert!(state.ucm_pty_write("x").is_ok());
}

#[test]
fn terminal_commands_reach_the_session_in_order() {
    let mut state = AppState::default();
    state.ucm_pty_spawn(|_| true).unwrap();
    state.ucm_pty_started();
    state.ucm_pty_write("ls\n").unwrap();
    state.ucm_pty_resize(30, 100).unwrap();
    state.ucm_pty_switch_context("p", "b").unwrap();
    assert!(matches!(state.ucm_pty_next_command(), Some(SessionCommand::Write(b)) if b == b"ls\n"));
    assert!(matches!(state.ucm_pty_next_command(), Some(SessionCommand::Resize { rows: 30, cols: 100 })));
    assert!(matches!(state.ucm_pty_next_command(), Some(SessionCommand::Write(b)) if b == b"switch p/b\n"));
    assert!(state.ucm_pty_next_command().is_none());
    state.ucm_pty_on_read(ReadOutcome::Data(b"p/b> ".to_vec())).unwrap();
    let c = state.ucm_pty_get_context().unwrap();
    assert_eq!((c.project, c.branch), (Some("p".to_string()), Some("b".to_string())));
}

#[test]
fn kill_stops_and_forgets_the_session() {
    let mut state = AppState::default();
    state.ucm_pty_spawn(|_| true).unwrap();
    let ended = state.ucm_pty_kill().unwrap();
    assert_eq!(ended.state(), SessionState::Stopped);
    assert!(state.ucm_pty_kill().is_none());
    assert!(state.ucm_pty_write("x").is_err());
    assert_eq!(state.get_service_ports().api_port, 5858);
}

#[test]
fn paths_with_two_dots_are_refused() {
    assert_eq!(check_path_traversal("/a/b.txt"), Ok(()));
    assert_eq!(check_path_traversal(""), Ok(()));
    assert_eq!(check_path_traversal("/a/./b"), Ok(()));
    assert_eq!(check_path_traversal("/a/../b"), Err("Path traversal not allowed: /a/../b".to_string()));
    assert_eq!(check_path_traversal("name..txt"), Err("Path traversal not allowed: name..txt".to_string()));
    assert_eq!(check_path_traversal(".."), Err("Path traversal not allowed: ..".to_string()));
}
