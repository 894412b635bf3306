//! The server's side of the protocol: what the first frame of a connection
//! starts, how clients are admitted, what a control session answers and how a
//! user connection gets its tunnel.
use crate::fingerprint::is_lower_hex;
use crate::frame::FrameError;
use crate::msg::{
    compatible, opt_text, parse_error_text, parsed, version_compatible, Message, MessageView,
    ParseError, ParseErrorView, VERSION,
};
use crate::server::auth::identity_of;
use crate::server::state::{
    after_register, next_number, opt_str, registration, DataTransport, ServerState, SessionHandle,
    SessionView, StateView,
};
use crate::text::{decimal, joined, push_decimal};
use vstd::prelude::*;

verus! {

/// Seconds that a new connection has for its first frame.
pub const FIRST_FRAME_SECS: u64 = 10;

/// Seconds that a user connection waits for its tunnel.
pub const PENDING_SECS: u64 = 5;

/// Seconds that a refused client has to read the refusal.
pub const REFUSAL_SECS: u64 = 2;

/// An error message.
pub open spec fn error_view(code: Seq<char>, message: Seq<char>) -> MessageView {
    MessageView::Error { code, message }
}

fn error_message(code: &str, message: &str) -> (m: Message)
    ensures
        m@ == error_view(code@, message@),
{
    Message::Error { code: code.to_owned(), message: message.to_owned() }
}

// First frames.

/// What the first frame of a connection starts.
#[derive(Debug, Clone, PartialEq)]
pub enum FirstFrame {
    /// A control session, if the client is admitted.
    Control { version: String, token: String, hostname: Option<String> },
    /// The tunnel of a user connection.
    Data { conn_id: u64 },
    /// Nothing: this answer, and the connection is closed.
    Refuse(Message),
    /// Nothing: the connection is closed without an answer.
    Drop,
}

/// The mathematical content of a [`FirstFrame`].
pub enum FirstFrameView {
    Control { version: Seq<char>, token: Seq<char>, hostname: Option<Seq<char>> },
    Data { conn_id: u64 },
    Refuse(MessageView),
    Drop,
}

impl View for FirstFrame {
    type V = FirstFrameView;

    open spec fn view(&self) -> FirstFrameView {
        match self {
            FirstFrame::Control { version, token, hostname } => FirstFrameView::Control {
                version: version@,
                token: token@,
                hostname: opt_text(*hostname),
            },
            FirstFrame::Data { conn_id } => FirstFrameView::Data { conn_id: *conn_id },
            FirstFrame::Refuse(m) => FirstFrameView::Refuse(m@),
            FirstFrame::Drop => FirstFrameView::Drop,
        }
    }
}

/// What the first frame of a connection starts. A connection begins with
/// `hello`, or over TCP with `conn_init`; anything else ends it.
pub open spec fn first_frame_of(
    first: Result<MessageView, ParseErrorView>,
    data: DataTransport,
) -> FirstFrameView {
    match first {
        Ok(MessageView::Hello { version, token, hostname }) => FirstFrameView::Control {
            version,
            token,
            hostname,
        },
        Ok(MessageView::ConnInit { conn_id, .. }) if data == DataTransport::Tcp =>
            FirstFrameView::Data { conn_id },
        Ok(_) => FirstFrameView::Refuse(
            error_view(
                "unexpected_message"@,
                match data {
                    DataTransport::Tcp => "first frame must be hello or conn_init"@,
                    DataTransport::Quic => "first frame must be hello"@,
                },
            ),
        ),
        Err(e) => match data {
            DataTransport::Tcp => FirstFrameView::Refuse(error_view("parse"@, parse_error_text(e))),
            DataTransport::Quic => FirstFrameView::Drop,
        },
    }
}

/// Decides what a parsed first frame starts.
pub fn classify_first(first: Result<Message, ParseError>, data: DataTransport) -> (f: FirstFrame)
    ensures
        match first {
            Ok(m) => f@ == first_frame_of(Ok(m@), data),
            Err(e) => f@ == first_frame_of(Err(e@), data),
        },
{
    match first {
        Ok(Message::Hello { version, token, hostname }) => FirstFrame::Control {
            version,
            token,
            hostname,
        },
        Ok(m) => match data {
            DataTransport::Tcp => match m {
                Message::ConnInit { conn_id, proxy_name: _ } => FirstFrame::Data { conn_id },
                _ => FirstFrame::Refuse(
                    error_message("unexpected_message", "first frame must be hello or conn_init"),
                ),
            },
            DataTransport::Quic => FirstFrame::Refuse(
                error_message("unexpected_message", "first frame must be hello"),
            ),
        },
        Err(e) => match data {
            DataTransport::Tcp => FirstFrame::Refuse(error_message("parse", e.text().as_str())),
            DataTransport::Quic => FirstFrame::Drop,
        },
    }
}

/// Decides what the payload of a first frame starts.
pub fn first_frame(payload: &[u8], data: DataTransport) -> (f: FirstFrame)
    ensures
        f@ == first_frame_of(parsed(payload@), data),
{
    classify_first(Message::parse(payload), data)
}

/// Before a client is admitted nothing but `hello` starts a session, and nothing
/// but `conn_init` over TCP a tunnel.
pub proof fn law_only_hello_starts_session(
    first: Result<MessageView, ParseErrorView>,
    data: DataTransport,
)
    ensures
        first_frame_of(first, data) is Control <==> (first matches Ok(m) && m is Hello),
        first_frame_of(first, data) is Data <==> data == DataTransport::Tcp && (first matches Ok(m)
            && m is ConnInit),
{
}

// Admission.

/// Whether a text can be the id of a session: 32 lower-case hexadecimal digits.
pub open spec fn is_session_id(id: Seq<char>) -> bool {
    &&& id.len() == 32
    &&& forall|i: int| 0 <= i < id.len() ==> is_lower_hex(#[trigger] id[i])
}

/// A new session id from `Uuid::new_v4` in its simple format.
///
/// Trusted: the format is 32 lower-case hexadecimal digits. The digits are
/// random; that they are new is not stated. Where the system has no random bytes to
/// give, the call panics.
#[verifier::external_body]
fn new_session_id() -> (id: String)
    ensures
        is_session_id(id@),
{
    uuid::Uuid::new_v4().simple().to_string()
}

/// Whether a new session can be given this id.
pub closed spec fn can_be_drawn(id: Seq<char>) -> bool {
    exists|text: String| #[trigger] call_ensures(new_session_id, (), text) && text@ == id
}

/// The outcome of a `hello`.
#[derive(Debug, Clone)]
pub enum Admission {
    /// The client has a session and gets this reply.
    Accepted { session: SessionHandle, reply: Message },
    /// The client gets this reply, and the connection is closed.
    Refused(Message),
}

/// The mathematical content of an [`Admission`].
pub enum AdmissionView {
    Accepted { session: SessionView, reply: MessageView },
    Refused(MessageView),
}

impl View for Admission {
    type V = AdmissionView;

    open spec fn view(&self) -> AdmissionView {
        match self {
            Admission::Accepted { session, reply } => AdmissionView::Accepted {
                session: session@,
                reply: reply@,
            },
            Admission::Refused(reply) => AdmissionView::Refused(reply@),
        }
    }
}

/// The outcome of a `hello` with a session id at hand. The token is judged
/// before the version.
pub open spec fn admission<T>(
    state: StateView<T>,
    version: Seq<char>,
    token: Seq<char>,
    data: DataTransport,
    id: Seq<char>,
) -> AdmissionView {
    match identity_of(state.policy, token) {
        None => AdmissionView::Refused(error_view("auth_failed"@, "authentication failed"@)),
        Some(identity) => if !compatible(version) {
            AdmissionView::Refused(
                error_view(
                    "version_mismatch"@,
                    "server "@ + VERSION@ + ", client "@ + version,
                ),
            )
        } else {
            AdmissionView::Accepted {
                session: SessionView { id, identity, data, registered: Seq::empty() },
                reply: MessageView::HelloAck { version: VERSION@, session_id: id },
            }
        },
    }
}

/// Judges a `hello` with a session id at hand.
pub fn judge_hello<T>(
    state: &ServerState<T>,
    version: &str,
    token: &str,
    data: DataTransport,
    id: String,
) -> (a: Admission)
    ensures
        a@ == admission(state@, version@, token@, data, id@),
{
    match state.authenticate(token) {
        None => Admission::Refused(error_message("auth_failed", "authentication failed")),
        Some(identity) => {
            if !version_compatible(version) {
                let text = joined(joined("server ", VERSION).as_str(), ", client ");
                let text = joined(text.as_str(), version);
                return Admission::Refused(error_message("version_mismatch", text.as_str()));
            }
            let reply = Message::HelloAck { version: VERSION.to_owned(), session_id: id.clone() };
            let registered: Vec<crate::server::state::RegisteredProxy> = Vec::new();
            let session = SessionHandle { id, identity, data, registered };
            assert(session@.registered =~= Seq::empty());
            Admission::Accepted { session, reply }
        },
    }
}

/// Judges a `hello`; an admitted client gets a session with a new id.
pub fn open_session<T>(
    state: &ServerState<T>,
    version: &str,
    token: &str,
    data: DataTransport,
) -> (a: Admission)
    ensures
        exists|id: Seq<char>| #[trigger]
            can_be_drawn(id) && is_session_id(id) && a@ == admission(
                state@,
                version@,
                token@,
                data,
                id,
            ),
{
    let id = new_session_id();
    assert(can_be_drawn(id@));
    judge_hello(state, version, token, data, id)
}

/// A client whose token stands for nobody gets the same answer whatever else it
/// sent.
pub proof fn law_auth_failure_tells_nothing<T>(
    state: StateView<T>,
    version: Seq<char>,
    token: Seq<char>,
    data: DataTransport,
    id: Seq<char>,
)
    requires
        identity_of(state.policy, token) is None,
    ensures
        admission(state, version, token, data, id) == AdmissionView::Refused(
            error_view("auth_failed"@, "authentication failed"@),
        ),
{
}

/// A client is admitted exactly if its token stands for somebody and its version
/// is compatible.
pub proof fn law_admission<T>(
    state: StateView<T>,
    version: Seq<char>,
    token: Seq<char>,
    data: DataTransport,
    id: Seq<char>,
)
    ensures
        admission(state, version, token, data, id) is Accepted <==> identity_of(
            state.policy,
            token,
        ) is Some && compatible(version),
{
}

// Control sessions.

/// Something that happened to a control session.
#[derive(Debug, Clone)]
pub enum SessionEvent {
    /// Another part of the server has a message for the client.
    Command(Message),
    /// No other part of the server can have one any more.
    CommandsClosed,
    /// The client sent a message.
    Received(Message),
    /// What the client sent could not be read.
    ReadFailed(FrameError),
    /// The client closed the connection.
    Closed,
}

/// What a control session does.
#[derive(Debug, Clone, PartialEq)]
pub enum ControlAction {
    /// Send a message; the session ends if that fails.
    Send(Message),
    /// Send a message; the session goes on if that fails.
    Inform(Message),
    /// Listen on a port for a proxy, and report how that went.
    Listen { name: String, port: u16 },
    /// Nothing.
    Wait,
    /// End the session.
    Close,
}

/// The mathematical content of a [`ControlAction`].
pub enum ControlActionView {
    Send(MessageView),
    Inform(MessageView),
    Listen { name: Seq<char>, port: u16 },
    Wait,
    Close,
}

impl View for ControlAction {
    type V = ControlActionView;

    open spec fn view(&self) -> ControlActionView {
        match self {
            ControlAction::Send(m) => ControlActionView::Send(m@),
            ControlAction::Inform(m) => ControlActionView::Inform(m@),
            ControlAction::Listen { name, port } => ControlActionView::Listen {
                name: name@,
                port: *port,
            },
            ControlAction::Wait => ControlActionView::Wait,
            ControlAction::Close => ControlActionView::Close,
        }
    }
}

/// What a session does about a message of its client.
pub open spec fn answer<T>(
    state: StateView<T>,
    session: SessionView,
    m: MessageView,
) -> ControlActionView {
    match m {
        MessageView::RegisterProxy { name, proxy_type, local_addr: _, remote_port, vhost } =>
            match registration(state, session.identity, name, proxy_type, remote_port, vhost) {
                Ok(port) => ControlActionView::Listen { name, port },
                Err(text) => ControlActionView::Send(
                    MessageView::RegisterProxyAck { name, ok: false, error: Some(text) },
                ),
            },
        MessageView::Ping { ts } => ControlActionView::Send(MessageView::Pong { ts }),
        MessageView::Pong { .. } => ControlActionView::Wait,
        MessageView::Error { .. } => ControlActionView::Wait,
        _ => ControlActionView::Inform(
            error_view("unexpected_message"@, "unexpected message type"@),
        ),
    }
}

/// What a session does about an event. A message of an unknown type is reported
/// to the client; any other frame that cannot be read ends the session.
pub open spec fn reaction<T>(
    state: StateView<T>,
    session: SessionView,
    event: SessionEvent,
) -> ControlActionView {
    match event {
        SessionEvent::Command(m) => ControlActionView::Send(m@),
        SessionEvent::CommandsClosed => ControlActionView::Close,
        SessionEvent::Received(m) => answer(state, session, m@),
        SessionEvent::ReadFailed(FrameError::Parse(ParseError::UnknownType(_))) =>
            ControlActionView::Inform(error_view("unknown_message"@, "unknown message type"@)),
        SessionEvent::ReadFailed(_) => ControlActionView::Close,
        SessionEvent::Closed => ControlActionView::Close,
    }
}

/// Decides what a session does about a message of its client.
pub fn handle_message<T>(state: &ServerState<T>, session: &SessionHandle, m: Message) -> (a:
    ControlAction)
    ensures
        a@ == answer(state@, session@, m@),
{
    match m {
        Message::RegisterProxy { name, proxy_type, local_addr: _, remote_port, vhost } => {
            let host: Option<&str> = match &vhost {
                Some(s) => Some(s.as_str()),
                None => None,
            };
            assert(opt_str(host) == opt_text(vhost));
            match state.check_registration(
                &session.identity,
                name.as_str(),
                proxy_type,
                remote_port,
                host,
            ) {
                Ok(port) => ControlAction::Listen { name, port },
                Err(text) => ControlAction::Send(
                    Message::RegisterProxyAck { name, ok: false, error: Some(text) },
                ),
            }
        },
        Message::Ping { ts } => ControlAction::Send(Message::Pong { ts }),
        Message::Pong { ts: _ } => ControlAction::Wait,
        Message::Error { code: _, message: _ } => ControlAction::Wait,
        _ => ControlAction::Inform(
            error_message("unexpected_message", "unexpected message type"),
        ),
    }
}

/// Decides what a session does about an event.
pub fn handle_control<T>(
    state: &ServerState<T>,
    session: &SessionHandle,
    event: SessionEvent,
) -> (a: ControlAction)
    ensures
        a@ == reaction(state@, session@, event),
{
    match event {
        SessionEvent::Command(m) => ControlAction::Send(m),
        SessionEvent::CommandsClosed => ControlAction::Close,
        SessionEvent::Received(m) => handle_message(state, session, m),
        SessionEvent::ReadFailed(e) => match e {
            FrameError::Parse(ParseError::UnknownType(_)) => ControlAction::Inform(
                error_message("unknown_message", "unknown message type"),
            ),
            _ => ControlAction::Close,
        },
        SessionEvent::Closed => ControlAction::Close,
    }
}

/// What a client is told when the server cannot listen on a port.
pub open spec fn listen_failure(port: u16, reason: Seq<char>) -> Seq<char> {
    "监听 "@ + decimal(port as nat) + " 失败: "@ + reason
}

/// Ends a registration once the server tried to listen on `port`: `bound` is the
/// port it listens on, or why it does not. Returns the reply for the client.
pub fn register_proxy<T>(
    state: &mut ServerState<T>,
    session: &mut SessionHandle,
    name: String,
    port: u16,
    bound: Result<u16, String>,
) -> (reply: Message)
    ensures
        match bound {
            Ok(actual) => {
                &&& reply@ == (MessageView::RegisterProxyAck { name: name@, ok: true, error: None })
                &&& final(state)@ == after_register(
                    old(state)@,
                    old(session)@.id,
                    name@,
                    actual,
                )
                &&& final(session)@ == (SessionView {
                    registered: old(session)@.registered.push((name@, actual)),
                    ..old(session)@
                })
            },
            Err(reason) => {
                &&& reply@ == (MessageView::RegisterProxyAck {
                    name: name@,
                    ok: false,
                    error: Some(listen_failure(port, reason@)),
                })
                &&& final(state)@ == old(state)@
                &&& final(session)@ == old(session)@
            },
        },
{
    match bound {
        Ok(actual) => {
            state.register(session, name.as_str(), actual);
            Message::RegisterProxyAck { name, ok: true, error: None }
        },
        Err(reason) => {
            let mut text = "监听 ".to_owned();
            push_decimal(&mut text, port as u128);
            text.append(" 失败: ");
            text.append(reason.as_str());
            Message::RegisterProxyAck { name, ok: false, error: Some(text) }
        },
    }
}

/// A probe is answered with its own time stamp.
pub proof fn law_pong_echoes_ping<T>(state: StateView<T>, session: SessionView, ts: i64)
    ensures
        answer(state, session, MessageView::Ping { ts }) == ControlActionView::Send(
            MessageView::Pong { ts },
        ),
{
}

/// No message of a client ends its session, of known type or not.
pub proof fn law_messages_do_not_end_session<T>(
    state: StateView<T>,
    session: SessionView,
    m: MessageView,
    tag: String,
)
    ensures
        !(answer(state, session, m) is Close),
        reaction(
            state,
            session,
            SessionEvent::ReadFailed(FrameError::Parse(ParseError::UnknownType(tag))),
        ) == ControlActionView::Inform(error_view("unknown_message"@, "unknown message type"@)),
{
}

/// A frame that is too large, incomplete or no message ends the session, unless
/// it is a message of an unknown type.
pub proof fn law_broken_frame_ends_session<T>(
    state: StateView<T>,
    session: SessionView,
    e: FrameError,
)
    ensures
        reaction(state, session, SessionEvent::ReadFailed(e)) is Close <==> !(e matches
            FrameError::Parse(error) && error is UnknownType),
{
}

// Tunnels.

/// How a user connection gets its tunnel.
#[derive(Debug, Clone, PartialEq)]
pub enum RelayStart {
    /// Send this to the client, then wait for the connection it opens.
    Notify(Message),
    /// Open a stream to the client and send this as its first frame.
    OpenStream(Message),
}

/// The mathematical content of a [`RelayStart`].
pub enum RelayStartView {
    Notify(MessageView),
    OpenStream(MessageView),
}

impl View for RelayStart {
    type V = RelayStartView;

    open spec fn view(&self) -> RelayStartView {
        match self {
            RelayStart::Notify(m) => RelayStartView::Notify(m@),
            RelayStart::OpenStream(m) => RelayStartView::OpenStream(m@),
        }
    }
}

/// How the user connection `conn_id` of a proxy gets its tunnel.
pub open spec fn relay_start(
    data: DataTransport,
    conn_id: u64,
    proxy_name: Seq<char>,
) -> RelayStartView {
    match data {
        DataTransport::Tcp => RelayStartView::Notify(
            MessageView::NewConnection { conn_id, proxy_name },
        ),
        DataTransport::Quic => RelayStartView::OpenStream(
            MessageView::ConnInit { conn_id, proxy_name },
        ),
    }
}

/// Begins to relay a user connection: its number and how it gets its tunnel.
pub fn relay<T>(state: &mut ServerState<T>, data: DataTransport, proxy_name: &str) -> (r: (
    u64,
    RelayStart,
))
    ensures
        r.0 == old(state)@.next_conn_id,
        r.1@ == relay_start(data, r.0, proxy_name@),
        final(state)@ == (StateView { next_conn_id: next_number(r.0), ..old(state)@ }),
{
    let conn_id: u64 = state.next_conn_id();
    let proxy_name = proxy_name.to_owned();
    let start = match data {
        DataTransport::Tcp => RelayStart::Notify(Message::NewConnection { conn_id, proxy_name }),
        DataTransport::Quic => RelayStart::OpenStream(Message::ConnInit { conn_id, proxy_name }),
    };
    (conn_id, start)
}

/// Lets a user connection wait for its tunnel if its client could be told of it.
/// Otherwise the session is gone, and the user connection ends with it.
pub fn relay_announced<T>(state: &mut ServerState<T>, conn_id: u64, told: bool, waiter: T) -> (waits:
    bool)
    ensures
        waits == told,
        final(state)@ == if told {
            StateView { pending: old(state)@.pending.insert(conn_id, waiter), ..old(state)@ }
        } else {
            old(state)@
        },
{
    if told {
        state.await_tunnel(conn_id, waiter);
    }
    told
}

/// Ends the wait of a user connection whose tunnel did not come in time; a tunnel
/// that comes later finds nobody.
pub fn relay_timed_out<T>(state: &mut ServerState<T>, conn_id: u64)
    ensures
        final(state)@ == (StateView {
            pending: old(state)@.pending.remove(conn_id),
            ..old(state)@
        }),
{
    let _ = state.take_waiter(conn_id);
}

/// The tunnel that announces the number of a waiting user connection is handed
/// to that connection.
pub fn handle_data_conn<T>(state: &mut ServerState<T>, conn_id: u64) -> (waiter: Option<T>)
    ensures
        match waiter {
            Some(w) => old(state)@.pending.contains_pair(conn_id, w),
            None => !old(state)@.pending.contains_key(conn_id),
        },
        final(state)@ == (StateView {
            pending: old(state)@.pending.remove(conn_id),
            ..old(state)@
        }),
{
    state.take_waiter(conn_id)
}

} // verus!
