//! The client's side of the protocol: authentication, the registration of the
//! proxies one after the other, and what an established session does.
use crate::client::config::{ClientConfig, ProxyConfig, Transport};
use crate::client::tls::{build_connector, tls_plan_of, TlsPlan, TlsPlanView};
use crate::describe::{describe_reply, described_reply};
use crate::frame::{frame_error_text, FrameError};
use crate::msg::{
    compatible, law_compatible_versions, opt_text, version_compatible, Message, MessageView, ParseError, VERSION,
};
use crate::text::joined;
use vstd::prelude::*;

verus! {

/// Seconds that the server has for each answer of the handshake.
pub const HANDSHAKE_SECS: u64 = 10;

/// Seconds before a lost session is tried again.
pub const RECONNECT_SECS: u64 = 5;

/// Seconds between two latency probes.
pub const PING_SECS: u64 = 30;

// Failures.

/// What ended a session, or kept it from starting.
#[derive(Debug, Clone, PartialEq)]
pub enum Failure {
    /// The server speaks another major version.
    Incompatible { version: String },
    /// The server refused the handshake.
    Rejected { code: String, message: String },
    /// The server did not answer the handshake in time.
    HandshakeTimeout,
    /// The server answered the handshake with something else, or not at all.
    UnexpectedReply(Option<Message>),
    /// The server refused a proxy.
    RegisterRefused { name: String, error: Option<String> },
    /// The server did not answer a registration in time.
    RegisterTimeout,
    /// The server answered a registration with something else, or not at all.
    UnexpectedRegisterReply(Option<Message>),
    /// The server closed the control channel.
    ControlClosed(Transport),
    /// The QUIC connection is gone.
    ConnectionLost,
    /// What the server sent could not be read.
    Read(FrameError),
    /// The transport failed.
    Io(String),
    /// QUIC was chosen, but encryption was turned off.
    QuicNeedsTls,
    /// The configured fingerprint is none.
    InvalidFingerprint,
}

/// The mathematical content of a [`Failure`].
pub enum FailureView {
    Incompatible { version: Seq<char> },
    Rejected { code: Seq<char>, message: Seq<char> },
    HandshakeTimeout,
    UnexpectedReply(Option<MessageView>),
    RegisterRefused { name: Seq<char>, error: Option<Seq<char>> },
    RegisterTimeout,
    UnexpectedRegisterReply(Option<MessageView>),
    ControlClosed(Transport),
    ConnectionLost,
    Read(FrameError),
    Io(Seq<char>),
    QuicNeedsTls,
    InvalidFingerprint,
}

/// The content of an optional message.
pub open spec fn opt_message(m: Option<Message>) -> Option<MessageView> {
    match m {
        Some(m) => Some(m@),
        None => None,
    }
}

impl View for Failure {
    type V = FailureView;

    open spec fn view(&self) -> FailureView {
        match self {
            Failure::Incompatible { version } => FailureView::Incompatible { version: version@ },
            Failure::Rejected { code, message } => FailureView::Rejected {
                code: code@,
                message: message@,
            },
            Failure::HandshakeTimeout => FailureView::HandshakeTimeout,
            Failure::UnexpectedReply(m) => FailureView::UnexpectedReply(opt_message(*m)),
            Failure::RegisterRefused { name, error } => FailureView::RegisterRefused {
                name: name@,
                error: opt_text(*error),
            },
            Failure::RegisterTimeout => FailureView::RegisterTimeout,
            Failure::UnexpectedRegisterReply(m) => FailureView::UnexpectedRegisterReply(
                opt_message(*m),
            ),
            Failure::ControlClosed(transport) => FailureView::ControlClosed(*transport),
            Failure::ConnectionLost => FailureView::ConnectionLost,
            Failure::Read(e) => FailureView::Read(*e),
            Failure::Io(text) => FailureView::Io(text@),
            Failure::QuicNeedsTls => FailureView::QuicNeedsTls,
            Failure::InvalidFingerprint => FailureView::InvalidFingerprint,
        }
    }
}

/// How a failure is shown to the user.
pub open spec fn failure_text(f: FailureView) -> Seq<char> {
    match f {
        FailureView::Incompatible { version } => "server protocol version "@ + version
            + ", client "@ + VERSION@ + ": incompatible"@,
        FailureView::Rejected { code, message } => "server rejected handshake: "@ + code + ": "@
            + message,
        FailureView::HandshakeTimeout => "handshake timeout"@,
        FailureView::UnexpectedReply(m) => "unexpected handshake reply: "@ + described_reply(m),
        FailureView::RegisterRefused { name, error } => "proxy `"@ + name + "` register failed: "@
            + (match error {
            Some(text) => text,
            None => Seq::empty(),
        }),
        FailureView::RegisterTimeout => "register ack timeout"@,
        FailureView::UnexpectedRegisterReply(m) => "unexpected register reply: "@
            + described_reply(m),
        FailureView::ControlClosed(Transport::Tcp) => "control connection closed"@,
        FailureView::ControlClosed(Transport::Quic) => "control stream closed"@,
        FailureView::ConnectionLost => "quic connection lost"@,
        FailureView::Read(e) => frame_error_text(e),
        FailureView::Io(text) => text,
        FailureView::QuicNeedsTls =>
            "transport = \"quic\" 需要 TLS（QUIC 强制加密），请移除 tls.enabled = false"@,
        FailureView::InvalidFingerprint =>
            "server_fingerprint 格式无效：应为 SHA256（64 个 hex 字符）"@,
    }
}

impl Failure {
    /// How the failure is shown to the user.
    pub fn text(&self) -> (text: String)
        ensures
            text@ == failure_text(self@),
    {
        match self {
            Failure::Incompatible { version } => {
                let text = joined("server protocol version ", version.as_str());
                let text = joined(text.as_str(), ", client ");
                let text = joined(text.as_str(), VERSION);
                joined(text.as_str(), ": incompatible")
            },
            Failure::Rejected { code, message } => {
                let text = joined("server rejected handshake: ", code.as_str());
                let text = joined(text.as_str(), ": ");
                joined(text.as_str(), message.as_str())
            },
            Failure::HandshakeTimeout => "handshake timeout".to_owned(),
            Failure::UnexpectedReply(m) => joined(
                "unexpected handshake reply: ",
                describe_reply(m).as_str(),
            ),
            Failure::RegisterRefused { name, error } => {
                let text = joined("proxy `", name.as_str());
                let text = joined(text.as_str(), "` register failed: ");
                match error {
                    Some(e) => joined(text.as_str(), e.as_str()),
                    None => {
                        assert(text@ + Seq::<char>::empty() =~= text@);
                        text
                    },
                }
            },
            Failure::RegisterTimeout => "register ack timeout".to_owned(),
            Failure::UnexpectedRegisterReply(m) => joined(
                "unexpected register reply: ",
                describe_reply(m).as_str(),
            ),
            Failure::ControlClosed(Transport::Tcp) => "control connection closed".to_owned(),
            Failure::ControlClosed(Transport::Quic) => "control stream closed".to_owned(),
            Failure::ConnectionLost => "quic connection lost".to_owned(),
            Failure::Read(e) => e.text(),
            Failure::Io(text) => text.clone(),
            Failure::QuicNeedsTls =>
                "transport = \"quic\" 需要 TLS（QUIC 强制加密），请移除 tls.enabled = false".to_owned(),
            Failure::InvalidFingerprint =>
                "server_fingerprint 格式无效：应为 SHA256（64 个 hex 字符）".to_owned(),
        }
    }
}

/// How a session ended.
#[derive(Debug, Clone, PartialEq)]
pub enum RunError {
    /// Another attempt would end the same way.
    Fatal(Failure),
    /// Another attempt may succeed.
    Retry(Failure),
}

/// The mathematical content of a [`RunError`].
pub enum RunErrorView {
    Fatal(FailureView),
    Retry(FailureView),
}

impl View for RunError {
    type V = RunErrorView;

    open spec fn view(&self) -> RunErrorView {
        match self {
            RunError::Fatal(f) => RunErrorView::Fatal(f@),
            RunError::Retry(f) => RunErrorView::Retry(f@),
        }
    }
}

/// What to do when a session has ended.
#[derive(Debug, Clone, PartialEq)]
pub enum Next {
    /// Give up.
    GiveUp(Failure),
    /// Try again after so many seconds.
    Reconnect { after_secs: u64 },
    /// Nothing is left to do.
    Done,
}

/// Decides what to do when a session has ended.
pub fn after_session(end: Result<(), RunError>) -> (next: Next)
    ensures
        match end {
            Ok(_) => next is Done,
            Err(RunError::Fatal(f)) => next == Next::GiveUp(f),
            Err(RunError::Retry(_)) => next == (Next::Reconnect { after_secs: RECONNECT_SECS }),
        },
{
    match end {
        Ok(_) => Next::Done,
        Err(RunError::Fatal(f)) => Next::GiveUp(f),
        Err(RunError::Retry(_)) => Next::Reconnect { after_secs: RECONNECT_SECS },
    }
}

/// Checks a configuration before the first session and decides how connections
/// are secured. QUIC has no plain-text mode.
pub fn prepare(cfg: &ClientConfig) -> (r: Result<TlsPlan, Failure>)
    ensures
        match r {
            Ok(plan) => !(cfg.transport == Transport::Quic && !cfg.tls.enabled) && tls_plan_of(
                cfg.tls,
            ) == Some(plan@),
            Err(Failure::QuicNeedsTls) => cfg.transport == Transport::Quic && !cfg.tls.enabled,
            Err(Failure::InvalidFingerprint) => tls_plan_of(cfg.tls) is None,
            Err(_) => false,
        },
{
    if cfg.transport == Transport::Quic && !cfg.tls.enabled {
        return Err(Failure::QuicNeedsTls);
    }
    match build_connector(cfg) {
        Ok(plan) => Ok(plan),
        Err(_) => Err(Failure::InvalidFingerprint),
    }
}

/// Whether the control channel runs on the stream that was opened before the
/// QUIC handshake ended: only if there is one and the server accepted early data.
pub fn uses_early_stream(opened: bool, accepted: bool) -> (yes: bool)
    ensures
        yes == (opened && accepted),
{
    opened && accepted
}

// The session.

/// How far a session has come.
#[derive(Debug, Clone, Copy, PartialEq, Eq, Structural)]
pub enum Phase {
    /// The server has not answered `hello` yet.
    AwaitHello,
    /// The server has accepted so many proxies and not yet answered for the next.
    Registering(usize),
    /// All proxies are registered.
    Established,
}

/// A session of the client.
#[derive(Debug, Clone)]
pub struct ClientSession {
    pub phase: Phase,
    /// The id that the server gave.
    pub session_id: Option<String>,
}

/// The mathematical content of a [`ClientSession`].
pub struct ClientSessionView {
    pub phase: Phase,
    pub session_id: Option<Seq<char>>,
}

impl View for ClientSession {
    type V = ClientSessionView;

    open spec fn view(&self) -> ClientSessionView {
        ClientSessionView { phase: self.phase, session_id: opt_text(self.session_id) }
    }
}

/// Something that happened to a session.
#[derive(Debug, Clone)]
pub enum ClientEvent {
    /// The server sent a message.
    Received(Message),
    /// What the server sent could not be read.
    ReadFailed(FrameError),
    /// The server closed the control channel.
    Closed,
    /// The transport failed.
    IoFailed(String),
    /// The time for an answer is over.
    Elapsed,
    /// It is time for a probe; this is the clock.
    Tick(i64),
    /// The server opened a stream.
    StreamOpened,
    /// The server cannot open streams any more.
    StreamsLost,
}

/// What a session does.
#[derive(Debug, Clone, PartialEq)]
pub enum ClientAction {
    /// Send a message, and report if that fails.
    Send(Message),
    /// Open a tunnel for a user connection.
    OpenTunnel { conn_id: u64, proxy_name: String },
    /// Serve the stream as the tunnel of a user connection.
    ServeStream,
    /// Nothing.
    Wait,
    /// End the session.
    Stop(RunError),
}

/// The mathematical content of a [`ClientAction`].
pub enum ClientActionView {
    Send(MessageView),
    OpenTunnel { conn_id: u64, proxy_name: Seq<char> },
    ServeStream,
    Wait,
    Stop(RunErrorView),
}

impl View for ClientAction {
    type V = ClientActionView;

    open spec fn view(&self) -> ClientActionView {
        match self {
            ClientAction::Send(m) => ClientActionView::Send(m@),
            ClientAction::OpenTunnel { conn_id, proxy_name } => ClientActionView::OpenTunnel {
                conn_id: *conn_id,
                proxy_name: proxy_name@,
            },
            ClientAction::ServeStream => ClientActionView::ServeStream,
            ClientAction::Wait => ClientActionView::Wait,
            ClientAction::Stop(e) => ClientActionView::Stop(e@),
        }
    }
}

/// An end after which another attempt may succeed.
pub open spec fn retry_view(f: FailureView) -> ClientActionView {
    ClientActionView::Stop(RunErrorView::Retry(f))
}

fn retry(f: Failure) -> (a: ClientAction)
    ensures
        a@ == retry_view(f@),
{
    ClientAction::Stop(RunError::Retry(f))
}

/// The message that introduces a client.
pub open spec fn hello_view(token: Seq<char>) -> MessageView {
    MessageView::Hello { version: VERSION@, token, hostname: None }
}

/// The message that registers a proxy.
pub open spec fn register_view(p: ProxyConfig) -> MessageView {
    MessageView::RegisterProxy {
        name: p.name@,
        proxy_type: p.proxy_type,
        local_addr: p.local_addr@,
        remote_port: Some(p.remote_port),
        vhost: None,
    }
}

fn register_message(p: &ProxyConfig) -> (m: Message)
    ensures
        m@ == register_view(*p),
{
    Message::RegisterProxy {
        name: p.name.clone(),
        proxy_type: p.proxy_type,
        local_addr: p.local_addr.clone(),
        remote_port: Some(p.remote_port),
        vhost: None,
    }
}

/// Begins a session: the first message for the server.
pub fn start(cfg: &ClientConfig) -> (r: (ClientSession, Message))
    ensures
        r.0@ == (ClientSessionView { phase: Phase::AwaitHello, session_id: None }),
        r.1@ == hello_view(cfg.token@),
{
    let hello = Message::Hello {
        version: VERSION.to_owned(),
        token: cfg.token.clone(),
        hostname: None,
    };
    (ClientSession { phase: Phase::AwaitHello, session_id: None }, hello)
}

/// The phase of a session with `done` proxies registered, and what it does: it
/// registers the next proxy, if one is left.
pub open spec fn advance(proxies: Seq<ProxyConfig>, done: nat) -> (Phase, ClientActionView) {
    if done < proxies.len() {
        (
            Phase::Registering(done as usize),
            ClientActionView::Send(register_view(proxies[done as int])),
        )
    } else {
        (Phase::Established, ClientActionView::Wait)
    }
}

fn register_next(proxies: &Vec<ProxyConfig>, done: usize) -> (r: (Phase, ClientAction))
    ensures
        (r.0, r.1@) == advance(proxies@, done as nat),
{
    if done < proxies.len() {
        (Phase::Registering(done), ClientAction::Send(register_message(&proxies[done])))
    } else {
        (Phase::Established, ClientAction::Wait)
    }
}

/// What a session does about the answer to `hello`.
pub open spec fn on_hello_reply(
    proxies: Seq<ProxyConfig>,
    session: ClientSessionView,
    reply: Option<MessageView>,
) -> (ClientSessionView, ClientActionView) {
    match reply {
        Some(MessageView::HelloAck { version, session_id }) => if compatible(version) {
            let (phase, action) = advance(proxies, 0);
            (ClientSessionView { phase, session_id: Some(session_id) }, action)
        } else {
            (
                session,
                ClientActionView::Stop(RunErrorView::Fatal(FailureView::Incompatible { version })),
            )
        },
        Some(MessageView::Error { code, message }) => (
            session,
            ClientActionView::Stop(RunErrorView::Fatal(FailureView::Rejected { code, message })),
        ),
        other => (session, retry_view(FailureView::UnexpectedReply(other))),
    }
}

/// What a session does about the answer to the registration of the proxy after
/// the first `done`.
pub open spec fn on_register_reply(
    proxies: Seq<ProxyConfig>,
    session: ClientSessionView,
    done: usize,
    reply: Option<MessageView>,
) -> (ClientSessionView, ClientActionView) {
    match reply {
        Some(MessageView::RegisterProxyAck { name, ok, error }) => if ok {
            let (phase, action) = advance(proxies, done as nat + 1);
            (ClientSessionView { phase, ..session }, action)
        } else {
            (session, retry_view(FailureView::RegisterRefused { name, error }))
        },
        other => (session, retry_view(FailureView::UnexpectedRegisterReply(other))),
    }
}

/// What an established session does about a message.
pub open spec fn on_message(transport: Transport, m: MessageView) -> ClientActionView {
    match m {
        MessageView::NewConnection { conn_id, proxy_name } => match transport {
            Transport::Tcp => ClientActionView::OpenTunnel { conn_id, proxy_name },
            Transport::Quic => ClientActionView::Wait,
        },
        MessageView::Ping { ts } => ClientActionView::Send(MessageView::Pong { ts }),
        _ => ClientActionView::Wait,
    }
}

/// The complaint about a message of an unknown type.
pub open spec fn unknown_message_view() -> MessageView {
    MessageView::Error { code: "unknown_message"@, message: "unknown message type"@ }
}

/// The next state of a session and what it does about an event. A message of an
/// unknown type is reported to the server and changes nothing.
pub open spec fn step_of(
    proxies: Seq<ProxyConfig>,
    transport: Transport,
    session: ClientSessionView,
    event: ClientEvent,
) -> (ClientSessionView, ClientActionView) {
    match event {
        ClientEvent::Received(m) => match session.phase {
            Phase::AwaitHello => on_hello_reply(proxies, session, Some(m@)),
            Phase::Registering(done) => on_register_reply(proxies, session, done, Some(m@)),
            Phase::Established => (session, on_message(transport, m@)),
        },
        ClientEvent::ReadFailed(FrameError::Parse(ParseError::UnknownType(_))) => (
            session,
            ClientActionView::Send(unknown_message_view()),
        ),
        ClientEvent::ReadFailed(e) => (session, retry_view(FailureView::Read(e))),
        ClientEvent::Closed => match session.phase {
            Phase::AwaitHello => on_hello_reply(proxies, session, None),
            Phase::Registering(done) => on_register_reply(proxies, session, done, None),
            Phase::Established => (session, retry_view(FailureView::ControlClosed(transport))),
        },
        ClientEvent::IoFailed(text) => (session, retry_view(FailureView::Io(text@))),
        ClientEvent::Elapsed => match session.phase {
            Phase::AwaitHello => (session, retry_view(FailureView::HandshakeTimeout)),
            Phase::Registering(_) => (session, retry_view(FailureView::RegisterTimeout)),
            Phase::Established => (session, ClientActionView::Wait),
        },
        ClientEvent::Tick(now) => if session.phase == Phase::Established {
            (session, ClientActionView::Send(MessageView::Ping { ts: now }))
        } else {
            (session, ClientActionView::Wait)
        },
        ClientEvent::StreamOpened => if session.phase == Phase::Established && transport
            == Transport::Quic {
            (session, ClientActionView::ServeStream)
        } else {
            (session, ClientActionView::Wait)
        },
        ClientEvent::StreamsLost => if session.phase == Phase::Established && transport
            == Transport::Quic {
            (session, retry_view(FailureView::ConnectionLost))
        } else {
            (session, ClientActionView::Wait)
        },
    }
}

/// Takes the answer to `hello` or to a registration, `None` if the server closed
/// the control channel instead. An established session expects no answer.
fn handshake(cfg: &ClientConfig, session: &mut ClientSession, reply: Option<Message>) -> (a:
    ClientAction)
    requires
        old(session).phase != Phase::Established,
    ensures
        (final(session)@, a@) == match old(session).phase {
            Phase::Registering(done) => on_register_reply(
                cfg.proxies@,
                old(session)@,
                done,
                opt_message(reply),
            ),
            _ => on_hello_reply(cfg.proxies@, old(session)@, opt_message(reply)),
        },
{
    match session.phase {
        Phase::Registering(done) => match reply {
            Some(Message::RegisterProxyAck { name, ok, error }) => {
                if !ok {
                    return retry(Failure::RegisterRefused { name, error });
                }
                if done < cfg.proxies.len() {
                    let (phase, action) = register_next(&cfg.proxies, done + 1);
                    session.phase = phase;
                    action
                } else {
                    session.phase = Phase::Established;
                    ClientAction::Wait
                }
            },
            other => retry(Failure::UnexpectedRegisterReply(other)),
        },
        _ => match reply {
            Some(Message::HelloAck { version, session_id }) => {
                if !version_compatible(version.as_str()) {
                    return ClientAction::Stop(RunError::Fatal(Failure::Incompatible { version }));
                }
                let (phase, action) = register_next(&cfg.proxies, 0);
                session.phase = phase;
                session.session_id = Some(session_id);
                action
            },
            Some(Message::Error { code, message }) => ClientAction::Stop(
                RunError::Fatal(Failure::Rejected { code, message }),
            ),
            other => retry(Failure::UnexpectedReply(other)),
        },
    }
}

/// Takes a message of an established session.
fn established(transport: Transport, m: Message) -> (a: ClientAction)
    ensures
        a@ == on_message(transport, m@),
{
    match m {
        Message::NewConnection { conn_id, proxy_name } => match transport {
            Transport::Tcp => ClientAction::OpenTunnel { conn_id, proxy_name },
            Transport::Quic => ClientAction::Wait,
        },
        Message::Ping { ts } => ClientAction::Send(Message::Pong { ts }),
        _ => ClientAction::Wait,
    }
}

/// Decides what a session does about an event, and brings it to its next state.
pub fn step(cfg: &ClientConfig, session: &mut ClientSession, event: ClientEvent) -> (a:
    ClientAction)
    ensures
        (final(session)@, a@) == step_of(cfg.proxies@, cfg.transport, old(session)@, event),
{
    match event {
        ClientEvent::Received(m) => match session.phase {
            Phase::Established => established(cfg.transport, m),
            _ => handshake(cfg, session, Some(m)),
        },
        ClientEvent::ReadFailed(e) => match e {
            FrameError::Parse(ParseError::UnknownType(_)) => ClientAction::Send(
                Message::Error {
                    code: "unknown_message".to_owned(),
                    message: "unknown message type".to_owned(),
                },
            ),
            e => retry(Failure::Read(e)),
        },
        ClientEvent::Closed => match session.phase {
            Phase::Established => retry(Failure::ControlClosed(cfg.transport)),
            _ => handshake(cfg, session, None),
        },
        ClientEvent::IoFailed(text) => retry(Failure::Io(text)),
        ClientEvent::Elapsed => match session.phase {
            Phase::AwaitHello => retry(Failure::HandshakeTimeout),
            Phase::Registering(_) => retry(Failure::RegisterTimeout),
            Phase::Established => ClientAction::Wait,
        },
        ClientEvent::Tick(now) => {
            if session.phase == Phase::Established {
                ClientAction::Send(Message::Ping { ts: now })
            } else {
                ClientAction::Wait
            }
        },
        ClientEvent::StreamOpened => {
            if session.phase == Phase::Established && cfg.transport == Transport::Quic {
                ClientAction::ServeStream
            } else {
                ClientAction::Wait
            }
        },
        ClientEvent::StreamsLost => {
            if session.phase == Phase::Established && cfg.transport == Transport::Quic {
                retry(Failure::ConnectionLost)
            } else {
                ClientAction::Wait
            }
        },
    }
}

// Laws.

/// A configuration that passes [`prepare`] never sends QUIC in plain text.
pub proof fn law_quic_is_encrypted(cfg: ClientConfig, plan: TlsPlanView)
    requires
        cfg.transport == Transport::Quic,
        !(cfg.transport == Transport::Quic && !cfg.tls.enabled),
        tls_plan_of(cfg.tls) == Some(plan),
    ensures
        plan is Encrypted,
{
}

/// The messages that an action sends.
pub open spec fn sent(a: ClientActionView) -> Seq<MessageView> {
    match a {
        ClientActionView::Send(m) => seq![m],
        _ => Seq::empty(),
    }
}

/// A session whose server admitted it and then accepted the next `acks` proxies,
/// and the messages it has sent since it was admitted.
pub open spec fn after_acks(
    proxies: Seq<ProxyConfig>,
    session_id: Seq<char>,
    acks: nat,
) -> (ClientSessionView, Seq<MessageView>)
    decreases acks,
{
    if acks == 0 {
        let start = ClientSessionView { phase: Phase::AwaitHello, session_id: None };
        let reply = MessageView::HelloAck { version: VERSION@, session_id };
        let (session, action) = on_hello_reply(proxies, start, Some(reply));
        (session, sent(action))
    } else {
        let (session, log) = after_acks(proxies, session_id, (acks - 1) as nat);
        match session.phase {
            Phase::Registering(done) => {
                let reply = MessageView::RegisterProxyAck {
                    name: proxies[done as int].name@,
                    ok: true,
                    error: None,
                };
                let (next, action) = on_register_reply(proxies, session, done, Some(reply));
                (next, log + sent(action))
            },
            _ => (session, log),
        }
    }
}

/// An admitted client registers its proxies one at a time, in order, each once;
/// the session is established when the server has accepted all of them.
pub proof fn law_registers_in_order(
    proxies: Seq<ProxyConfig>,
    session_id: Seq<char>,
    acks: nat,
)
    requires
        acks <= proxies.len() <= usize::MAX,
    ensures
        after_acks(proxies, session_id, acks).0 == (ClientSessionView {
            phase: if acks < proxies.len() {
                Phase::Registering(acks as usize)
            } else {
                Phase::Established
            },
            session_id: Some(session_id),
        }),
        after_acks(proxies, session_id, acks).1 == proxies.take(
            if acks < proxies.len() {
                acks as int + 1
            } else {
                proxies.len() as int
            },
        ).map_values(|p: ProxyConfig| register_view(p)),
    decreases acks,
{
    let registrations = |n: int| proxies.take(n).map_values(|p: ProxyConfig| register_view(p));
    if acks == 0 {
        law_compatible_versions(VERSION@);
        reveal_strlit("1.0");
        assert("1.0"@.len() == 3 && "1.0"@[0] == '1' && "1.0"@[1] == '.');
        if proxies.len() > 0 {
            assert(registrations(1) =~= seq![register_view(proxies[0])]);
        } else {
            assert(registrations(0) =~= Seq::empty());
        }
    } else {
        let before = (acks - 1) as nat;
        law_registers_in_order(proxies, session_id, before);
        let log = after_acks(proxies, session_id, before).1;
        assert(log =~= registrations(acks as int));
        if acks < proxies.len() {
            assert(registrations(acks as int + 1) =~= log + seq![register_view(proxies[acks as int])]);
        } else {
            assert(log + Seq::<MessageView>::empty() =~= log);
        }
    }
}

/// A client gives up for good only if the server refused the handshake or speaks
/// another major version; whatever else goes wrong, it tries again.
pub proof fn law_fatal_only_on_refusal(
    proxies: Seq<ProxyConfig>,
    transport: Transport,
    session: ClientSessionView,
    event: ClientEvent,
)
    ensures
        (step_of(proxies, transport, session, event).1 matches ClientActionView::Stop(end) && end
            is Fatal) <==> session.phase == Phase::AwaitHello && (event matches
            ClientEvent::Received(m) && match m@ {
            MessageView::HelloAck { version, .. } => !compatible(version),
            MessageView::Error { .. } => true,
            _ => false,
        }),
{
}

/// A probe is answered with its own time stamp.
pub proof fn law_client_pong_echoes_ping(transport: Transport, ts: i64)
    ensures
        on_message(transport, MessageView::Ping { ts }) == ClientActionView::Send(
            MessageView::Pong { ts },
        ),
{
}

/// No message ends an established session, of known type or not; one of unknown
/// type is reported to the server.
pub proof fn law_messages_do_not_end_client_session(
    proxies: Seq<ProxyConfig>,
    transport: Transport,
    session: ClientSessionView,
    m: MessageView,
    tag: String,
)
    ensures
        !(on_message(transport, m) is Stop),
        step_of(
            proxies,
            transport,
            session,
            ClientEvent::ReadFailed(FrameError::Parse(ParseError::UnknownType(tag))),
        ) == (session, ClientActionView::Send(unknown_message_view())),
{
}

/// Tunnels are served only by established sessions: over TCP the client opens
/// them, over QUIC the server does.
pub proof fn law_tunnels_only_when_established(
    proxies: Seq<ProxyConfig>,
    transport: Transport,
    session: ClientSessionView,
    event: ClientEvent,
)
    ensures
        step_of(proxies, transport, session, event).1 is OpenTunnel ==> session.phase
            == Phase::Established && transport == Transport::Tcp,
        step_of(proxies, transport, session, event).1 is ServeStream ==> session.phase
            == Phase::Established && transport == Transport::Quic,
{
}

} // verus!
