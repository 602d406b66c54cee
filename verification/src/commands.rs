//! What the editor's commands decide before and after they touch the
//! outside world: which ports a session start hands out, and what the
//! terminal commands do when no session exists.

use crate::lsp_proxy::{LspProxy, ProxyView};
use crate::port_utils::{find_available_port, scan_limit};
use crate::text::{append_str, contains, string_of, text_contains};
use crate::ucm_pty::{
    queued, resize_refusal, stopped, switch_command, write_refusal, CommandView, ContextView,
    SessionModel, SessionState, UCMContext, UCMPorts, UCMPtyManager, API_PORT_START, LSP_PORT,
};
use vstd::prelude::*;
use vstd::utf8::encode_utf8;

verus! {

/// The ports of the services of one session.
#[derive(Debug, Clone, Copy, PartialEq, Eq, Structural)]
pub struct ServicePorts {
    pub api_port: u16,
    pub lsp_port: u16,
    pub lsp_proxy_port: u16,
}

/// An entry of a directory listing.
#[derive(Debug)]
pub struct FileNode {
    pub name: String,
    pub path: String,
    pub is_directory: bool,
    pub children: Option<Vec<FileNode>>,
}

/// The first port tried for the relay.
pub const LSP_PROXY_PORT_START: u16 = 5758;

/// The host on which all services of a session listen.
pub open spec fn local_host() -> Seq<char> {
    "127.0.0.1"@
}

/// What is said of a path that tries to leave its directory.
pub open spec fn traversal_refusal(path: Seq<char>) -> Seq<char> {
    "Path traversal not allowed: "@ + path
}

/// Refuses a path that holds `..` anywhere, before it is looked up.
pub fn check_path_traversal(path: &str) -> (r: Result<(), String>)
    ensures
        contains(path@, ".."@) ==> r is Err && r->Err_0@ == traversal_refusal(path@),
        !contains(path@, ".."@) ==> r is Ok,
{
    let text = crate::text::chars_of(path);
    if text_contains(&text, "..") {
        let mut out: Vec<char> = Vec::new();
        append_str(&mut out, "Path traversal not allowed: ");
        append_str(&mut out, path);
        Err(string_of(&out))
    } else {
        Ok(())
    }
}

/// What a session start leads to.
#[derive(Debug)]
pub enum SessionStart {
    /// A session is running: these are its ports, nothing is started.
    AlreadyRunning(ServicePorts),
    /// A new session: start UCM with these ports, then the relay.
    Started { ports: ServicePorts, proxy: LspProxy },
}

/// What a session start leads to, as plain values.
pub enum StartView {
    AlreadyRunning(ServicePorts),
    Started { ports: ServicePorts, proxy: ProxyView },
}

impl View for SessionStart {
    type V = StartView;

    open spec fn view(&self) -> StartView {
        match self {
            SessionStart::AlreadyRunning(p) => StartView::AlreadyRunning(*p),
            SessionStart::Started { ports, proxy } => StartView::Started {
                ports: *ports,
                proxy: proxy@,
            },
        }
    }
}

/// The state that the commands share, as plain values.
pub struct StateView {
    pub session: Option<SessionModel>,
    pub ports: ServicePorts,
}

/// The state that the commands share: the session, if one was started, and
/// the ports last handed out.
pub struct AppState {
    ucm_pty: Option<UCMPtyManager>,
    ports: ServicePorts,
}

/// The session that the state holds, as plain values.
pub open spec fn session_option(s: Option<UCMPtyManager>) -> Option<SessionModel> {
    match s {
        Some(m) => Some(m@),
        None => None,
    }
}

impl View for AppState {
    type V = StateView;

    closed spec fn view(&self) -> StateView {
        StateView { session: session_option(self.ucm_pty), ports: self.ports }
    }
}

/// The ports before any session was started.
pub open spec fn default_ports() -> ServicePorts {
    ServicePorts { api_port: 5858, lsp_port: 5757, lsp_proxy_port: 5758 }
}

/// What is said of a terminal command where no session was started.
pub open spec fn not_spawned() -> Seq<char> {
    "UCM PTY not spawned"@
}

/// A session exists and has not ended.
pub open spec fn has_live_session(s: StateView) -> bool {
    s.session is Some && s.session->0.state.live()
}

impl Default for AppState {
    fn default() -> (r: Self)
        ensures
            r@ == (StateView { session: None, ports: default_ports() }),
    {
        AppState {
            ucm_pty: None,
            ports: ServicePorts { api_port: 5858, lsp_port: 5757, lsp_proxy_port: 5758 },
        }
    }
}

impl AppState {
    /// The ports last handed out.
    pub fn get_service_ports(&self) -> (r: ServicePorts)
        ensures
            r == self@.ports,
    {
        self.ports
    }

    /// Starts a session unless one is running.
    ///
    /// A running session is answered with its ports. Otherwise a session
    /// that has ended is discarded, the API port is searched from 5858 on and
    /// the relay port from 5758 on; the language server keeps 5757. If either
    /// search finds nothing the start fails and no session is kept.
    pub fn ucm_pty_spawn<F: Fn(u16) -> bool>(&mut self, probe: F) -> (r: Result<
        SessionStart,
        String,
    >)
        requires
            forall|p: u16|
                API_PORT_START <= p < scan_limit(API_PORT_START) ==> call_requires(probe, (p,)),
            forall|p: u16|
                LSP_PROXY_PORT_START <= p < scan_limit(LSP_PROXY_PORT_START) ==> call_requires(
                    probe,
                    (p,),
                ),
        ensures
            has_live_session(old(self)@) ==> final(self)@ == old(self)@ && r is Ok && r->Ok_0@
                == StartView::AlreadyRunning(old(self)@.ports),
            !has_live_session(old(self)@) ==> match r {
                Ok(start) => {
                    &&& start@ matches StartView::Started { ports, proxy }
                    &&& final(self)@.ports == ports
                    &&& final(self)@.session == Some(
                        SessionModel {
                            state: SessionState::Starting,
                            context: ContextView { project: None, branch: None },
                            buffer: Seq::<char>::empty(),
                            reads: 0,
                            pending: Seq::<CommandView>::empty(),
                            ports: UCMPorts { api_port: ports.api_port, lsp_port: ports.lsp_port },
                        },
                    )
                    &&& ports.lsp_port == LSP_PORT
                    &&& proxy == (ProxyView {
                        ws_port: ports.lsp_proxy_port,
                        lsp_host: local_host(),
                        lsp_port: ports.lsp_port,
                    })
                    &&& API_PORT_START <= ports.api_port < scan_limit(API_PORT_START)
                    &&& call_ensures(probe, (ports.api_port,), true)
                    &&& forall|q: u16|
                        API_PORT_START <= q < ports.api_port ==> #[trigger] call_ensures(
                            probe,
                            (q,),
                            false,
                        )
                    &&& LSP_PROXY_PORT_START <= ports.lsp_proxy_port < scan_limit(
                        LSP_PROXY_PORT_START,
                    )
                    &&& call_ensures(probe, (ports.lsp_proxy_port,), true)
                    &&& forall|q: u16|
                        LSP_PROXY_PORT_START <= q < ports.lsp_proxy_port
                            ==> #[trigger] call_ensures(probe, (q,), false)
                },
                Err(e) => {
                    &&& final(self)@ == (StateView { session: None, ..old(self)@ })
                    &&& (e@ == "Could not find available port for UCM API server"@ && forall|q: u16|
                        API_PORT_START <= q < scan_limit(API_PORT_START)
                            ==> #[trigger] call_ensures(probe, (q,), false)) || (e@
                        == "Could not find available port for LSP WebSocket proxy"@ && forall|
                        q: u16,
                    |
                        LSP_PROXY_PORT_START <= q < scan_limit(LSP_PROXY_PORT_START)
                            ==> #[trigger] call_ensures(probe, (q,), false))
                },
            },
    {
        let running = match &self.ucm_pty {
            Some(manager) => manager.is_running(),
            None => false,
        };
        if running {
            return Ok(SessionStart::AlreadyRunning(self.ports));
        }
        self.ucm_pty = None;
        let (manager, ucm_ports) = match UCMPtyManager::spawn(&probe) {
            Ok(pair) => pair,
            Err(e) => { return Err(e); },
        };
        let lsp_proxy_port = match find_available_port(LSP_PROXY_PORT_START, &probe) {
            Some(port) => port,
            None => {
                return Err("Could not find available port for LSP WebSocket proxy".to_owned());
            },
        };
        let ports = ServicePorts {
            api_port: ucm_ports.api_port,
            lsp_port: ucm_ports.lsp_port,
            lsp_proxy_port: lsp_proxy_port,
        };
        self.ucm_pty = Some(manager);
        self.ports = ports;
        let proxy = LspProxy::new(lsp_proxy_port, "127.0.0.1".to_owned(), ucm_ports.lsp_port);
        Ok(SessionStart::Started { ports: ports, proxy: proxy })
    }

    /// Whether there is a session that has not ended.
    pub fn ucm_pty_is_running(&self) -> (r: bool)
        ensures
            r == has_live_session(self@),
    {
        match &self.ucm_pty {
            Some(manager) => manager.is_running(),
            None => false,
        }
    }

    /// The process of the session has been started on its terminal.
    pub fn ucm_pty_started(&mut self)
        ensures
            old(self)@.session is None ==> final(self)@ == old(self)@,
            old(self)@.session is Some ==> final(self)@.ports == old(self)@.ports && final(self)@.session == Some(
                if old(self)@.session->0.state == SessionState::Starting {
                    SessionModel { state: SessionState::Running, ..old(self)@.session->0 }
                } else {
                    old(self)@.session->0
                },
            ),
    {
        match &mut self.ucm_pty {
            Some(manager) => {
                manager.started();
            },
            None => {},
        }
    }

    /// Queues what the user typed for the session's terminal.
    pub fn ucm_pty_write(&mut self, data: &str) -> (r: Result<(), String>)
        ensures
            old(self)@.session is None ==> r is Err && r->Err_0@ == not_spawned() && final(self)@
                == old(self)@,
            has_live_session(old(self)@) ==> r is Ok && final(self)@ == (StateView {
                session: Some(
                    queued(old(self)@.session->0, CommandView::Write(encode_utf8(data@))),
                ),
                ..old(self)@
            }),
            old(self)@.session is Some && !has_live_session(old(self)@) ==> r is Err
                && r->Err_0@ == write_refusal() && final(self)@ == old(self)@,
    {
        match &mut self.ucm_pty {
            Some(manager) => manager.write(data.as_bytes()),
            None => Err("UCM PTY not spawned".to_owned()),
        }
    }

    /// Queues a change of size for the session's terminal.
    pub fn ucm_pty_resize(&mut self, rows: u16, cols: u16) -> (r: Result<(), String>)
        ensures
            old(self)@.session is None ==> r is Err && r->Err_0@ == not_spawned() && final(self)@
                == old(self)@,
            has_live_session(old(self)@) ==> r is Ok && final(self)@ == (StateView {
                session: Some(
                    queued(
                        old(self)@.session->0,
                        CommandView::Resize { rows: rows, cols: cols },
                    ),
                ),
                ..old(self)@
            }),
            old(self)@.session is Some && !has_live_session(old(self)@) ==> r is Err
                && r->Err_0@ == resize_refusal() && final(self)@ == old(self)@,
    {
        match &mut self.ucm_pty {
            Some(manager) => manager.resize(rows, cols),
            None => Err("UCM PTY not spawned".to_owned()),
        }
    }

    /// The context that the session's prompt showed last.
    pub fn ucm_pty_get_context(&self) -> (r: Result<UCMContext, String>)
        ensures
            match r {
                Ok(c) => self@.session is Some && c@ == self@.session->0.context,
                Err(e) => self@.session is None && e@ == not_spawned(),
            },
    {
        match &self.ucm_pty {
            Some(manager) => Ok(manager.get_context()),
            None => Err("UCM PTY not spawned".to_owned()),
        }
    }

    /// Queues the command that makes the session's UCM switch context.
    pub fn ucm_pty_switch_context(&mut self, project: &str, branch: &str) -> (r: Result<
        (),
        String,
    >)
        ensures
            old(self)@.session is None ==> r is Err && r->Err_0@ == not_spawned() && final(self)@
                == old(self)@,
            has_live_session(old(self)@) ==> r is Ok && final(self)@ == (StateView {
                session: Some(
                    queued(
                        old(self)@.session->0,
                        CommandView::Write(switch_command(project@, branch@)),
                    ),
                ),
                ..old(self)@
            }),
            old(self)@.session is Some && !has_live_session(old(self)@) ==> r is Err
                && r->Err_0@ == write_refusal() && final(self)@ == old(self)@,
    {
        match &mut self.ucm_pty {
            Some(manager) => manager.switch_context(project, branch),
            None => Err("UCM PTY not spawned".to_owned()),
        }
    }

    /// Ends the session, if there is one, and forgets it. The result is the
    /// session as it was stopped; killing where there is no session succeeds
    /// and does nothing.
    pub fn ucm_pty_kill(&mut self) -> (r: Option<UCMPtyManager>)
        ensures
            final(self)@ == (StateView { session: None, ..old(self)@ }),
            match r {
                Some(m) => old(self)@.session is Some && m@ == stopped(old(self)@.session->0),
                None => old(self)@.session is None,
            },
    {
        match self.ucm_pty.take() {
            Some(manager) => {
                let mut ended = manager;
                ended.stop();
                Some(ended)
            },
            None => None,
        }
    }

    /// Takes the next command for the session's terminal, oldest first.
    pub fn ucm_pty_next_command(&mut self) -> (r: Option<crate::ucm_pty::SessionCommand>)
        ensures
            old(self)@.session is None ==> r is None && final(self)@ == old(self)@,
            old(self)@.session is Some ==> final(self)@.ports == old(self)@.ports && match r {
                Some(c) => old(self)@.session->0.pending.len() > 0 && c@ == old(self)@.session->0.pending[0] && final(self)@.session == Some(
                    SessionModel {
                        pending: old(self)@.session->0.pending.drop_first(),
                        ..old(self)@.session->0
                    },
                ),
                None => old(self)@.session->0.pending.len() == 0 && final(self)@ == old(self)@,
            },
    {
        match &mut self.ucm_pty {
            Some(manager) => manager.next_command(),
            None => None,
        }
    }

    /// Hands the outcome of one read of the session's terminal to the
    /// session.
    pub fn ucm_pty_on_read(&mut self, outcome: crate::ucm_pty::ReadOutcome) -> (r: Option<
        crate::ucm_pty::ReadStep,
    >)
        ensures
            old(self)@.session is None ==> r is None && final(self)@ == old(self)@,
            old(self)@.session is Some ==> r is Some && final(self)@.ports == old(self)@.ports
                && final(self)@.session == Some(
                crate::ucm_pty::read_step(old(self)@.session->0, outcome@).next,
            ) && crate::ucm_pty::events_view(r->0.events@) == crate::ucm_pty::read_step(
                old(self)@.session->0,
                outcome@,
            ).events && r->0.action == crate::ucm_pty::read_step(
                old(self)@.session->0,
                outcome@,
            ).action,
    {
        match &mut self.ucm_pty {
            Some(manager) => Some(manager.on_read(outcome)),
            None => None,
        }
    }
}

} // verus!
