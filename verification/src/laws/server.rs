//! What the server decides: first frames, admission, control sessions and the
//! tunnels of user connections.
use crate::frame::FrameError;
use crate::laws::access::{
    host_granted, host_reached, lemma_first_user, lemma_host_granted, lemma_port_granted,
    port_denied, port_granted,
};
use crate::msg::{law_compatible_versions, opt_text, Message, ParseError, ProxyType};
use crate::server::auth::{identity_of, user_with_token, AuthPolicyView, Identity, IdentityView};
use crate::server::session::{
    admission, can_be_drawn, classify_first, first_frame, handle_control, handle_data_conn,
    handle_message, is_session_id, judge_hello, open_session, register_proxy, relay,
    relay_announced, relay_timed_out, Admission, ControlAction, FirstFrame, RelayStart,
    SessionEvent, FIRST_FRAME_SECS, PENDING_SECS, REFUSAL_SECS,
};
use crate::server::state::{
    lists_name, lists_port, opt_str, proxies_view, registration, DataTransport, RegisteredProxy,
    ServerState, SessionHandle, StateView,
};
use crate::text::decimal;
use vstd::prelude::*;

verus! {

/// Whether a message is an error report with this code and this text.
pub open spec fn reports(m: Message, code: Seq<char>, text: Seq<char>) -> bool {
    m matches Message::Error { code: c, message: t } && c@ == code && t@ == text
}

// First frames.

/// Whether a connection with this first frame is rightly taken for `f`: `hello`
/// begins a control session with what it holds, `conn_init` over TCP the tunnel with
/// its number; any other message is refused, and what is no message is refused with
/// the reason over TCP and dropped over QUIC.
pub open spec fn rightly_begun(
    first: Result<Message, ParseError>,
    data: DataTransport,
    f: FirstFrame,
) -> bool {
    match first {
        Ok(Message::Hello { version, token, hostname }) => f matches FirstFrame::Control {
            version: v,
            token: t,
            hostname: h,
        } && v@ == version@ && t@ == token@ && opt_text(h) == opt_text(hostname),
        Ok(m) => if data is Tcp && m is ConnInit {
            f == FirstFrame::Data { conn_id: m->ConnInit_conn_id }
        } else if data is Tcp {
            f matches FirstFrame::Refuse(reply) && reports(
                reply,
                "unexpected_message"@,
                "first frame must be hello or conn_init"@,
            )
        } else {
            f matches FirstFrame::Refuse(reply) && reports(
                reply,
                "unexpected_message"@,
                "first frame must be hello"@,
            )
        },
        Err(e) => if data is Tcp {
            f matches FirstFrame::Refuse(Message::Error { code, message }) && code@ == "parse"@ && (
            forall|text: String| #[trigger]
                call_ensures(ParseError::text, (&e,), text) ==> message@ == text@)
        } else {
            f is Drop
        },
    }
}

/// A parsed first frame begins what it should.
pub proof fn law_classify_first(
    first: Result<Message, ParseError>,
    data: DataTransport,
    f: FirstFrame,
)
    requires
        call_ensures(classify_first, (first, data), f),
    ensures
        rightly_begun(first, data, f),
{
}

/// The payload of a first frame begins what the message that it parses to should.
pub proof fn law_first_frame(
    payload: &[u8],
    data: DataTransport,
    first: Result<Message, ParseError>,
    f: FirstFrame,
)
    requires
        call_ensures(Message::parse, (payload,), first),
        call_ensures(first_frame, (payload, data), f),
    ensures
        rightly_begun(first, data, f),
{
}

// Admission.

/// Whether a token stands for an identity, or for nobody: with a single token it must
/// be that text; with users the first that has the token counts.
pub open spec fn stands_for(
    policy: AuthPolicyView,
    token: Seq<char>,
    identity: Option<IdentityView>,
) -> bool {
    match policy {
        AuthPolicyView::Open => identity == Some(IdentityView::Open),
        AuthPolicyView::Legacy(expected) => match identity {
            Some(id) => id is Legacy && token == expected,
            None => token != expected,
        },
        AuthPolicyView::Users(users) => match identity {
            Some(IdentityView::User(user)) => exists|i: int|
                0 <= i < users.len() && #[trigger] users[i] == user && user.token == token && (
                forall|j: int| 0 <= j < i ==> (#[trigger] users[j]).token != token),
            Some(_) => false,
            None => forall|i: int| 0 <= i < users.len() ==> (#[trigger] users[i]).token != token,
        },
    }
}

/// Whether a version has the major number 1.
pub open spec fn major_one(version: Seq<char>) -> bool {
    version.len() >= 1 && version[0] == '1' && (version.len() >= 2 ==> version[1] == '.')
}

/// Whether a `hello` is rightly answered: a client whose token stands for nobody is
/// told that authentication failed, else one of another major version is told both
/// versions, and any other has a session under its identity, with nothing registered,
/// and learns its id.
pub open spec fn rightly_admitted(
    policy: AuthPolicyView,
    version: Seq<char>,
    token: Seq<char>,
    data: DataTransport,
    id: Seq<char>,
    a: Admission,
) -> bool {
    match a {
        Admission::Accepted { session, reply } => {
            &&& stands_for(policy, token, Some(session.identity@))
            &&& major_one(version)
            &&& session.id@ == id
            &&& session.data == data
            &&& session.registered@.len() == 0
            &&& reply matches Message::HelloAck { version: v, session_id } && v@ == "1.0"@
                && session_id@ == id
        },
        Admission::Refused(m) => if stands_for(policy, token, None) {
            reports(m, "auth_failed"@, "authentication failed"@)
        } else {
            !major_one(version) && reports(
                m,
                "version_mismatch"@,
                "server "@ + "1.0"@ + ", client "@ + version,
            )
        },
    }
}

proof fn lemma_stands_for(policy: AuthPolicyView, token: Seq<char>)
    ensures
        stands_for(policy, token, identity_of(policy, token)),
        identity_of(policy, token) is Some ==> !stands_for(policy, token, None),
{
    if let AuthPolicyView::Users(users) = policy {
        lemma_first_user(users, token);
        if let Some(user) = user_with_token(users, token) {
            let i = choose|i: int|
                0 <= i < users.len() && #[trigger] users[i] == user && user.token == token && (
                forall|j: int| 0 <= j < i ==> (#[trigger] users[j]).token != token);
            assert(users[i].token == token);
        }
    }
}

/// No token stands for two identities, nor for one and for nobody.
pub proof fn law_one_identity(
    policy: AuthPolicyView,
    token: Seq<char>,
    a: Option<IdentityView>,
    b: Option<IdentityView>,
)
    requires
        stands_for(policy, token, a),
        stands_for(policy, token, b),
    ensures
        a == b,
{
    if let AuthPolicyView::Users(users) = policy {
        match (a, b) {
            (Some(IdentityView::User(u)), Some(IdentityView::User(v))) => {
                let i = choose|i: int|
                    0 <= i < users.len() && #[trigger] users[i] == u && u.token == token && (
                    forall|j: int| 0 <= j < i ==> (#[trigger] users[j]).token != token);
                let k = choose|k: int|
                    0 <= k < users.len() && #[trigger] users[k] == v && v.token == token && (
                    forall|j: int| 0 <= j < k ==> (#[trigger] users[j]).token != token);
                if i < k {
                    assert(users[i].token != token);
                } else if k < i {
                    assert(users[k].token != token);
                }
            },
            _ => {},
        }
    }
}

/// The server gives a client the identity that its token stands for.
pub proof fn law_authenticate<T>(state: &ServerState<T>, token: &str, r: Option<Identity>)
    requires
        call_ensures(ServerState::<T>::authenticate, (state, token), r),
    ensures
        match r {
            Some(identity) => stands_for(state@.policy, token@, Some(identity@)),
            None => stands_for(state@.policy, token@, None),
        },
{
    lemma_stands_for(state@.policy, token@);
}

/// A `hello` is answered as it should be.
pub proof fn law_judge_hello<T>(
    state: &ServerState<T>,
    version: &str,
    token: &str,
    data: DataTransport,
    id: String,
    a: Admission,
)
    requires
        call_ensures(judge_hello::<T>, (state, version, token, data, id), a),
    ensures
        rightly_admitted(state@.policy, version@, token@, data, id@, a),
{
    lemma_stands_for(state@.policy, token@);
    law_compatible_versions(version@);
    if let Admission::Accepted { session, reply } = a {
        assert(session@.registered.len() == session.registered@.len());
    }
}

/// A `hello` is answered as it should be; the id of a new session consists of 32
/// lower-case hexadecimal digits.
pub proof fn law_open_session<T>(
    state: &ServerState<T>,
    version: &str,
    token: &str,
    data: DataTransport,
    a: Admission,
)
    requires
        call_ensures(open_session::<T>, (state, version, token, data), a),
    ensures
        exists|id: Seq<char>| #[trigger]
            rightly_admitted(state@.policy, version@, token@, data, id, a) && id.len() == 32 && (
            forall|i: int|
                0 <= i < 32 ==> ('0' <= #[trigger] id[i] <= '9' || 'a' <= id[i] <= 'f')),
{
    lemma_stands_for(state@.policy, token@);
    law_compatible_versions(version@);
    if let Admission::Accepted { session, reply } = a {
        assert(session@.registered.len() == session.registered@.len());
    }
    let id = choose|id: Seq<char>| #[trigger]
        can_be_drawn(id) && is_session_id(id) && a@
            == admission(state@, version@, token@, data, id);
    assert(rightly_admitted(state@.policy, version@, token@, data, id, a));
}

/// With a single token, a client is admitted exactly if it presents that very text and
/// speaks version 1, whatever follows the dot; it is then a holder of the single token.
pub proof fn law_single_token_admits<T>(
    state: &ServerState<T>,
    expected: Seq<char>,
    version: &str,
    token: &str,
    data: DataTransport,
    id: String,
    a: Admission,
)
    requires
        call_ensures(judge_hello::<T>, (state, version, token, data, id), a),
        state@.policy == AuthPolicyView::Legacy(expected),
    ensures
        a is Accepted <==> token@ == expected && version@.len() >= 1 && version@[0] == '1' && (
        version@.len() >= 2 ==> version@[1] == '.'),
        a matches Admission::Accepted { session, reply } ==> session.identity is Legacy
            && session.id@ == id@ && session.registered@.len() == 0,
{
    law_judge_hello(state, version, token, data, id, a);
    lemma_stands_for(state@.policy, token@);
}

/// With users, a client of version 1 is admitted exactly if a user has its token, and as
/// the first such user; with authentication off, every client of version 1 is.
pub proof fn law_users_admit<T>(
    state: &ServerState<T>,
    version: &str,
    token: &str,
    data: DataTransport,
    id: String,
    a: Admission,
)
    requires
        call_ensures(judge_hello::<T>, (state, version, token, data, id), a),
        version@.len() >= 1 && version@[0] == '1' && (version@.len() >= 2 ==> version@[1] == '.'),
    ensures
        state@.policy is Open ==> (a matches Admission::Accepted { session, reply }
            && session.identity is Open),
        state@.policy matches AuthPolicyView::Users(users) ==> {
            &&& a is Accepted <==> exists|i: int|
                0 <= i < users.len() && (#[trigger] users[i]).token == token@
            &&& forall|i: int|
                0 <= i < users.len() && (#[trigger] users[i]).token == token@ && (forall|j: int|
                    0 <= j < i ==> (#[trigger] users[j]).token != token@) ==> (a matches
                    Admission::Accepted { session, reply } && session.identity@
                    == IdentityView::User(users[i]))
        },
{
    law_judge_hello(state, version, token, data, id, a);
    if let AuthPolicyView::Users(users) = state@.policy {
        lemma_stands_for(state@.policy, token@);
        if exists|i: int| 0 <= i < users.len() && (#[trigger] users[i]).token == token@ {
            assert(!stands_for(state@.policy, token@, None));
        }
        if let Admission::Accepted { session, reply } = a {
            assert forall|i: int|
                0 <= i < users.len() && (#[trigger] users[i]).token == token@ && (forall|j: int|
                    0 <= j < i ==> (#[trigger] users[j]).token != token@) implies session.identity@
                == IdentityView::User(users[i]) by {
                let found = Some(IdentityView::User(users[i]));
                assert(stands_for(state@.policy, token@, found));
                law_one_identity(state@.policy, token@, found, Some(session.identity@));
            }
        }
    }
}

// Registration.

/// What speaks against a proxy, first things first; `None` if nothing does. It does
/// not matter what else the session has registered.
pub open spec fn objection<T>(
    state: StateView<T>,
    identity: Identity,
    name: Seq<char>,
    proxy_type: ProxyType,
    remote_port: Option<u16>,
    vhost: Option<Seq<char>>,
) -> Option<Seq<char>> {
    if !(proxy_type is Tcp) {
        Some("M1 仅支持 tcp 代理"@)
    } else if remote_port is None {
        Some("tcp 代理需要 remote_port"@)
    } else if remote_port->0 == 0 {
        Some("remote_port 不能为 0"@)
    } else if !port_granted(identity, remote_port->0) {
        Some(port_denied(identity, remote_port->0))
    } else if vhost matches Some(host) && !host_granted(identity, host) {
        Some("vhost "@ + vhost->0 + " 不在授权范围内"@)
    } else if state.names.dom().contains(name) {
        Some("同名代理已存在"@)
    } else if state.ports.dom().contains(remote_port->0) {
        Some("端口 "@ + decimal(remote_port->0 as nat) + " 已被占用"@)
    } else {
        None
    }
}

proof fn lemma_objection<T>(
    state: StateView<T>,
    identity: Identity,
    name: Seq<char>,
    proxy_type: ProxyType,
    remote_port: Option<u16>,
    vhost: Option<Seq<char>>,
)
    ensures
        registration(
            state,
            identity@,
            name,
            proxy_type,
            remote_port,
            vhost,
        ) == match objection(state, identity, name, proxy_type, remote_port, vhost) {
            Some(text) => Err::<u16, Seq<char>>(text),
            None => Ok::<u16, Seq<char>>(remote_port->0),
        },
{
    if let Some(port) = remote_port {
        lemma_port_granted(identity, port);
    }
    if let Some(host) = vhost {
        lemma_host_granted(identity, host);
    }
}

/// A request is granted exactly if nothing speaks against it, and then for the port
/// that was asked for; otherwise the first objection comes back.
pub proof fn law_check_registration<T>(
    state: &ServerState<T>,
    identity: &Identity,
    name: &str,
    proxy_type: ProxyType,
    remote_port: Option<u16>,
    vhost: Option<&str>,
    r: Result<u16, String>,
)
    requires
        call_ensures(
            ServerState::<T>::check_registration,
            (state, identity, name, proxy_type, remote_port, vhost),
            r,
        ),
    ensures
        match objection(state@, *identity, name@, proxy_type, remote_port, opt_str(vhost)) {
            Some(text) => r matches Err(t) && t@ == text,
            None => r matches Ok(port) && remote_port == Some(port),
        },
{
    lemma_objection(state@, *identity, name@, proxy_type, remote_port, opt_str(vhost));
}

/// Whether a message of a client is rightly answered: a proxy against which nothing
/// speaks is listened for, under its own name and on the port that was asked for, and
/// any other is refused with the first objection; a probe is echoed; answers and error
/// reports are taken note of; and what a client has no business to send is reported.
pub open spec fn rightly_answered<T>(
    state: StateView<T>,
    session: SessionHandle,
    m: Message,
    a: ControlAction,
) -> bool {
    match m {
        Message::RegisterProxy { name, proxy_type, local_addr: _, remote_port, vhost } =>
            match objection(
                state,
                session.identity,
                name@,
                proxy_type,
                remote_port,
                opt_text(vhost),
            ) {
                None => a matches ControlAction::Listen { name: n, port } && n@ == name@
                    && remote_port == Some(port),
                Some(text) => a matches ControlAction::Send(
                    Message::RegisterProxyAck { name: n, ok, error: Some(e) },
                ) && n@ == name@ && !ok && e@ == text,
            },
        Message::Ping { ts } => a == ControlAction::Send(Message::Pong { ts }),
        Message::Pong { .. } => a is Wait,
        Message::Error { .. } => a is Wait,
        _ => a matches ControlAction::Inform(e) && reports(
            e,
            "unexpected_message"@,
            "unexpected message type"@,
        ),
    }
}

/// A message of a client is answered as it should be.
pub proof fn law_handle_message<T>(
    state: &ServerState<T>,
    session: &SessionHandle,
    m: Message,
    a: ControlAction,
)
    requires
        call_ensures(handle_message::<T>, (state, session, m), a),
    ensures
        rightly_answered(state@, *session, m, a),
{
    if let Message::RegisterProxy { name, proxy_type, local_addr: _, remote_port, vhost } = m {
        lemma_objection(
            state@,
            session.identity,
            name@,
            proxy_type,
            remote_port,
            opt_text(vhost),
        );
    }
}

/// Whatever a session has registered before: a TCP proxy on a port that is not zero
/// and that its client may use, with a virtual host that it may serve or none, under a
/// name and on a port that nobody holds, is listened for under that name on that port.
pub proof fn law_session_registers_again<T>(
    state: &ServerState<T>,
    session: &SessionHandle,
    name: String,
    local_addr: String,
    port: u16,
    vhost: Option<String>,
    event: SessionEvent,
    a: ControlAction,
)
    requires
        call_ensures(handle_control::<T>, (state, session, event), a),
        event == SessionEvent::Received(
            Message::RegisterProxy {
                name,
                proxy_type: ProxyType::Tcp,
                local_addr,
                remote_port: Some(port),
                vhost,
            },
        ),
        port != 0,
        match session.identity {
            Identity::User(user) => exists|i: int|
                0 <= i < user.ports@.len() && (#[trigger] user.ports@[i]).low <= port && port
                    <= user.ports@[i].high,
            _ => port < 32768 || port > 60999,
        },
        vhost matches Some(host) ==> match session.identity {
            Identity::User(user) => exists|i: int|
                0 <= i < user.vhosts@.len() && ((#[trigger] user.vhosts@[i])@ == host@ || exists|
                    label: Seq<char>,
                    domain: Seq<char>,
                |
                    label.len() > 0 && !label.contains('.') && user.vhosts@[i]@ == seq!['*', '.']
                        + domain && host@ == #[trigger] (label + seq!['.'] + domain)),
            _ => true,
        },
        !state@.names.dom().contains(name@),
        !state@.ports.dom().contains(port),
    ensures
        a matches ControlAction::Listen { name: n, port: p } && n@ == name@ && p == port,
{
    law_handle_control(state, session, event, a);
    assert(port_granted(session.identity, port));
    if let Some(host) = vhost {
        if let Identity::User(user) = session.identity {
            let i = choose|i: int|
                0 <= i < user.vhosts@.len() && ((#[trigger] user.vhosts@[i])@ == host@ || exists|
                    label: Seq<char>,
                    domain: Seq<char>,
                |
                    label.len() > 0 && !label.contains('.') && user.vhosts@[i]@ == seq!['*', '.']
                        + domain && host@ == #[trigger] (label + seq!['.'] + domain));
            assert(host_reached(user.vhosts@[i]@, host@));
        }
        assert(host_granted(session.identity, host@));
    }
}

/// The server listens only for TCP proxies, on the port that was asked for, if it is not
/// zero, its client may use it, and nobody holds it or the name.
pub proof fn law_listens_only_if_free<T>(
    state: &ServerState<T>,
    session: &SessionHandle,
    event: SessionEvent,
    a: ControlAction,
    name: String,
    port: u16,
)
    requires
        call_ensures(handle_control::<T>, (state, session, event), a),
        a == (ControlAction::Listen { name, port }),
    ensures
        event matches SessionEvent::Received(
            Message::RegisterProxy { name: n, proxy_type, local_addr: _, remote_port, vhost: _ },
        ) && n@ == name@ && proxy_type is Tcp && remote_port == Some(port),
        port != 0,
        match session.identity {
            Identity::User(user) => exists|i: int|
                0 <= i < user.ports@.len() && (#[trigger] user.ports@[i]).low <= port && port
                    <= user.ports@[i].high,
            _ => port < 32768 || port > 60999,
        },
        !state@.names.dom().contains(name@),
        !state@.ports.dom().contains(port),
{
    law_handle_control(state, session, event, a);
}

/// A name that somebody holds, and a port that somebody holds, are refused to everybody;
/// each with its reason, the name before the port.
pub proof fn law_taken_is_refused<T>(
    state: &ServerState<T>,
    session: &SessionHandle,
    name: String,
    local_addr: String,
    port: u16,
    event: SessionEvent,
    a: ControlAction,
)
    requires
        call_ensures(handle_control::<T>, (state, session, event), a),
        event == SessionEvent::Received(
            Message::RegisterProxy {
                name,
                proxy_type: ProxyType::Tcp,
                local_addr,
                remote_port: Some(port),
                vhost: None,
            },
        ),
        port != 0,
        match session.identity {
            Identity::User(user) => exists|i: int|
                0 <= i < user.ports@.len() && (#[trigger] user.ports@[i]).low <= port && port
                    <= user.ports@[i].high,
            _ => port < 32768 || port > 60999,
        },
        state@.names.dom().contains(name@) || state@.ports.dom().contains(port),
    ensures
        a matches ControlAction::Send(
            Message::RegisterProxyAck { name: n, ok, error: Some(text) },
        ) && n@ == name@ && !ok && (state@.names.dom().contains(name@) ==> text@
            == "同名代理已存在"@) && (!state@.names.dom().contains(name@) ==> text@
            == "端口 "@ + decimal(port as nat) + " 已被占用"@),
{
    law_handle_control(state, session, event, a);
    assert(port_granted(session.identity, port));
}

/// Over the whole of a session, a probe is echoed with its own time stamp.
pub proof fn law_server_echoes_probe<T>(
    state: &ServerState<T>,
    session: &SessionHandle,
    ts: i64,
    a: ControlAction,
)
    requires
        call_ensures(
            handle_control::<T>,
            (state, session, SessionEvent::Received(Message::Ping { ts })),
            a,
        ),
    ensures
        a == ControlAction::Send(Message::Pong { ts }),
{
}

/// A control session passes on what the server has for the client, answers messages
/// as it should, reports a message of an unknown type, and ends when the client is
/// gone, when no part of the server has anything more to say, or when what the client
/// sent cannot be read.
pub proof fn law_handle_control<T>(
    state: &ServerState<T>,
    session: &SessionHandle,
    event: SessionEvent,
    a: ControlAction,
)
    requires
        call_ensures(handle_control::<T>, (state, session, event), a),
    ensures
        match event {
            SessionEvent::Command(m) => a matches ControlAction::Send(n) && n@ == m@,
            SessionEvent::CommandsClosed => a is Close,
            SessionEvent::Received(m) => rightly_answered(state@, *session, m, a),
            SessionEvent::ReadFailed(FrameError::Parse(ParseError::UnknownType(_))) => a matches
                ControlAction::Inform(e) && reports(
                e,
                "unknown_message"@,
                "unknown message type"@,
            ),
            SessionEvent::ReadFailed(_) => a is Close,
            SessionEvent::Closed => a is Close,
        },
{
    if let SessionEvent::Received(m) = event {
        if let Message::RegisterProxy { name, proxy_type, local_addr: _, remote_port, vhost } = m {
            lemma_objection(
                state@,
                session.identity,
                name@,
                proxy_type,
                remote_port,
                opt_text(vhost),
            );
        }
    }
}

/// Whether nothing but the holders of names and ports differs.
pub open spec fn same_but_registry<T>(a: StateView<T>, b: StateView<T>) -> bool {
    a.policy == b.policy && a.bind_addr == b.bind_addr && a.next_conn_id == b.next_conn_id
        && a.pending == b.pending
}

/// Whether two sessions are the same but for what they registered.
pub open spec fn same_client(a: SessionHandle, b: SessionHandle) -> bool {
    a.id@ == b.id@ && a.identity@ == b.identity@ && a.data == b.data
}

/// When the server listens, the session holds the name and the port, lists them after
/// all that it listed, and its client learns of the success; nobody else loses or
/// gains anything. When it cannot listen, nothing changes but that the client learns
/// why.
pub proof fn law_register_proxy<T>(
    state: &mut ServerState<T>,
    session: &mut SessionHandle,
    name: String,
    port: u16,
    bound: Result<u16, String>,
    reply: Message,
)
    requires
        call_ensures(register_proxy::<T>, (state, session, name, port, bound), reply),
    ensures
        same_but_registry(final(state)@, old(state)@),
        same_client(*final(session), *old(session)),
        match bound {
            Ok(actual) => {
                &&& reply matches Message::RegisterProxyAck { name: n, ok, error } && n@ == name@
                    && ok && error is None
                &&& final(state)@.names == old(state)@.names.insert(name@, old(session).id@)
                &&& final(state)@.ports == old(state)@.ports.insert(actual, old(session).id@)
                &&& final(session).registered@.len() == old(session).registered@.len() + 1
                &&& final(session).registered@.last().name@ == name@
                &&& final(session).registered@.last().port == actual
                &&& forall|i: int|
                    0 <= i < old(session).registered@.len() ==> (
                    #[trigger] final(session).registered@[i]).name@
                        == old(session).registered@[i].name@
                        && final(session).registered@[i].port
                        == old(session).registered@[i].port
            },
            Err(reason) => {
                &&& reply matches Message::RegisterProxyAck { name: n, ok, error: Some(text) } && n@
                    == name@ && !ok && text@ == "监听 "@ + decimal(port as nat) + " 失败: "@
                    + reason@
                &&& final(state)@ == old(state)@
                &&& final(session).registered@.len() == old(session).registered@.len()
                &&& forall|i: int|
                    0 <= i < old(session).registered@.len() ==> (
                    #[trigger] final(session).registered@[i]).name@
                        == old(session).registered@[i].name@
                        && final(session).registered@[i].port
                        == old(session).registered@[i].port
            },
        },
{
    let before = old(session)@.registered;
    let after = final(session)@.registered;
    assert(before.len() == old(session).registered@.len());
    assert(after.len() == final(session).registered@.len());
    assert forall|i: int| 0 <= i < old(session).registered@.len() implies (
    #[trigger] final(session).registered@[i]).name@
        == old(session).registered@[i].name@
        && final(session).registered@[i].port
        == old(session).registered@[i].port by {
        assert(after[i] == before[i]);
    }
    if let Ok(actual) = bound {
        assert(after.last() == (name@, actual));
        assert(after.last() == (
            final(session).registered@.last().name@,
            final(session).registered@.last().port,
        ));
    }
}

/// A proxy is entered under the session that registers it, which lists it after all that
/// it listed; nobody else loses or gains anything.
pub proof fn law_register<T>(
    state: &mut ServerState<T>,
    session: &mut SessionHandle,
    name: &str,
    port: u16,
)
    requires
        call_ensures(ServerState::<T>::register, (state, session, name, port), ()),
    ensures
        same_but_registry(final(state)@, old(state)@),
        same_client(*final(session), *old(session)),
        final(state)@.names == old(state)@.names.insert(name@, old(session).id@),
        final(state)@.ports == old(state)@.ports.insert(port, old(session).id@),
        final(session).registered@.len() == old(session).registered@.len() + 1,
        final(session).registered@.last().name@ == name@,
        final(session).registered@.last().port == port,
        forall|i: int|
            0 <= i < old(session).registered@.len() ==> (
            #[trigger] final(session).registered@[i]).name@ == old(session).registered@[i].name@
                && final(session).registered@[i].port == old(session).registered@[i].port,
{
    let before = old(session)@.registered;
    let after = final(session)@.registered;
    assert(before.len() == old(session).registered@.len());
    assert(after.len() == final(session).registered@.len());
    assert forall|i: int| 0 <= i < old(session).registered@.len() implies (
    #[trigger] final(session).registered@[i]).name@ == old(session).registered@[i].name@ && final(
    session).registered@[i].port == old(session).registered@[i].port by {
        assert(after[i] == before[i]);
    }
    assert(after.last() == (name@, port));
    assert(after.last() == (
        final(session).registered@.last().name@,
        final(session).registered@.last().port,
    ));
}

/// At the end of a session nothing stays under its id of what it listed, and all else
/// stays with its holder. The session lists nothing any more; what it listed comes
/// back, in order.
pub proof fn law_cleanup_session<T>(
    state: &mut ServerState<T>,
    session: &mut SessionHandle,
    ended: Vec<RegisteredProxy>,
)
    requires
        call_ensures(ServerState::<T>::cleanup_session, (state, session), ended),
    ensures
        same_but_registry(final(state)@, old(state)@),
        same_client(*final(session), *old(session)),
        final(session).registered@.len() == 0,
        ended@.len() == old(session).registered@.len(),
        forall|i: int|
            0 <= i < ended@.len() ==> (#[trigger] ended@[i]).name@
                == old(session).registered@[i].name@
                && ended@[i].port == old(session).registered@[i].port,
        forall|name: Seq<char>, holder: Seq<char>| #[trigger]
            final(state)@.names.contains_pair(name, holder) <==> old(state)@.names.contains_pair(
                name,
                holder,
            ) && !(holder == old(session).id@ && exists|i: int|
                0 <= i < ended@.len() && (#[trigger] ended@[i]).name@ == name),
        forall|port: u16, holder: Seq<char>| #[trigger]
            final(state)@.ports.contains_pair(port, holder) <==> old(state)@.ports.contains_pair(
                port,
                holder,
            ) && !(holder == old(session).id@ && exists|i: int|
                0 <= i < ended@.len() && (#[trigger] ended@[i]).port == port),
{
    let list = old(session)@.registered;
    assert(list.len() == old(session).registered@.len());
    assert(proxies_view(ended@).len() == ended@.len());
    assert(final(session)@.registered.len() == final(session).registered@.len());
    assert forall|i: int| 0 <= i < ended@.len() implies (#[trigger] ended@[i]).name@
        == old(session).registered@[i].name@
        && ended@[i].port == old(session).registered@[i].port
        && list[i] == (
    ended@[i].name@, ended@[i].port) by {
        assert(proxies_view(ended@)[i] == list[i]);
    }
    assert forall|name: Seq<char>| lists_name(list, name) <==> exists|i: int|
        0 <= i < ended@.len() && (#[trigger] ended@[i]).name@ == name by {
        if lists_name(list, name) {
            let i = choose|i: int| 0 <= i < list.len() && (#[trigger] list[i]).0 == name;
            assert(ended@[i].name@ == name);
        }
        if exists|i: int| 0 <= i < ended@.len() && (#[trigger] ended@[i]).name@ == name {
            let i = choose|i: int| 0 <= i < ended@.len() && (#[trigger] ended@[i]).name@ == name;
            assert(list[i].0 == name);
        }
    }
    assert forall|port: u16| lists_port(list, port) <==> exists|i: int|
        0 <= i < ended@.len() && (#[trigger] ended@[i]).port == port by {
        if lists_port(list, port) {
            let i = choose|i: int| 0 <= i < list.len() && (#[trigger] list[i]).1 == port;
            assert(ended@[i].port == port);
        }
        if exists|i: int| 0 <= i < ended@.len() && (#[trigger] ended@[i]).port == port {
            let i = choose|i: int| 0 <= i < ended@.len() && (#[trigger] ended@[i]).port == port;
            assert(list[i].1 == port);
        }
    }
}

// Tunnels.

/// A user connection gets the number that is next, and after it the one above it is
/// next, or zero after the largest. Its client is told of it over TCP; over QUIC it is
/// the first frame of a new stream. Either way with that number and the name of the
/// proxy.
pub proof fn law_relay<T>(
    state: &mut ServerState<T>,
    data: DataTransport,
    proxy_name: &str,
    r: (u64, RelayStart),
)
    requires
        call_ensures(relay::<T>, (state, data, proxy_name), r),
    ensures
        r.0 == old(state)@.next_conn_id,
        final(state)@.next_conn_id == (r.0 + 1) % 0x1_0000_0000_0000_0000,
        final(state)@ == (StateView {
            next_conn_id: final(state)@.next_conn_id,
            ..old(state)@
        }),
        data is Tcp ==> (r.1 matches RelayStart::Notify(
            Message::NewConnection { conn_id, proxy_name: n },
        ) && conn_id == r.0 && n@ == proxy_name@),
        data is Quic ==> (r.1 matches RelayStart::OpenStream(
            Message::ConnInit { conn_id, proxy_name: n },
        ) && conn_id == r.0 && n@ == proxy_name@),
{
}

/// A user connection of which its client could be told waits for its tunnel: the first
/// tunnel with its number reaches it, whatever other user connections do meanwhile,
/// and a second one finds nobody.
pub proof fn law_tunnel_reaches_waiter<T>(
    announced: &mut ServerState<T>,
    arrived: &mut ServerState<T>,
    repeated: &mut ServerState<T>,
    conn_id: u64,
    told: bool,
    waiter: T,
    waits: bool,
    first: Option<T>,
    second: Option<T>,
)
    requires
        call_ensures(relay_announced::<T>, (announced, conn_id, told, waiter), waits),
        call_ensures(handle_data_conn::<T>, (arrived, conn_id), first),
        call_ensures(handle_data_conn::<T>, (repeated, conn_id), second),
        old(arrived)@.pending.dom().contains(conn_id)
            == final(announced)@.pending.dom().contains(conn_id),
        old(arrived)@.pending[conn_id] == final(announced)@.pending[conn_id],
        old(repeated)@.pending == final(arrived)@.pending,
    ensures
        waits == told,
        told ==> first == Some(waiter),
        !told && !old(announced)@.pending.dom().contains(conn_id) ==> first is None,
        second is None,
        final(announced)@ == (StateView {
            pending: final(announced)@.pending,
            ..old(announced)@
        }),
        forall|other: u64| #![trigger final(announced)@.pending.dom().contains(other)]
            other != conn_id ==> final(announced)@.pending.dom().contains(other)
                == old(announced)@.pending.dom().contains(other)
                && final(announced)@.pending[other] == old(announced)@.pending[other],
{
}

/// A user connection that gave up is not reached by a tunnel that comes later; those
/// with other numbers go on waiting.
pub proof fn law_tunnel_misses_who_gave_up<T>(
    gave_up: &mut ServerState<T>,
    arrived: &mut ServerState<T>,
    conn_id: u64,
    r: Option<T>,
)
    requires
        call_ensures(relay_timed_out::<T>, (gave_up, conn_id), ()),
        call_ensures(handle_data_conn::<T>, (arrived, conn_id), r),
        old(arrived)@.pending == final(gave_up)@.pending,
    ensures
        r is None,
        final(gave_up)@ == (StateView { pending: final(gave_up)@.pending, ..old(gave_up)@ }),
        forall|other: u64| #![trigger final(gave_up)@.pending.dom().contains(other)]
            other != conn_id ==> final(gave_up)@.pending.dom().contains(other)
                == old(gave_up)@.pending.dom().contains(other)
                && final(gave_up)@.pending[other] == old(gave_up)@.pending[other],
{
}

/// The number of a user connection is the next one, and after it comes the one above it,
/// or zero after the largest.
pub proof fn law_next_conn_id<T>(state: &mut ServerState<T>, id: u64)
    requires
        call_ensures(ServerState::<T>::next_conn_id, (state,), id),
    ensures
        id == old(state)@.next_conn_id,
        final(state)@ == (StateView {
            next_conn_id: ((id + 1) % 0x1_0000_0000_0000_0000) as u64,
            ..old(state)@
        }),
{
}

/// A new connection has ten seconds for its first frame, a user connection waits five
/// for its tunnel, and a refused client has two to read why.
pub proof fn law_server_times()
    ensures
        FIRST_FRAME_SECS == 10,
        PENDING_SECS == 5,
        REFUSAL_SECS == 2,
{
}

} // verus!
