//! What client and server do together: each law follows one side's message into
//! the other side's reaction.
use crate::client::config::{ProxyConfig, Transport};
use crate::client::session::{
    advance, hello_view, on_hello_reply, on_message, on_register_reply, register_view, retry_view,
    ClientActionView, ClientSessionView, FailureView, Phase, RunErrorView,
};
use crate::client::tunnel::{data_stream_of, local_addr_of, DataStreamView};
use crate::frame::{framed, front, law_sent_message_is_received, Front, MAX_FRAME};
use crate::msg::{
    compatible, encoded, law_compatible_versions, parsed, MessageView, ParseErrorView, ProxyType,
    VERSION,
};
use crate::server::auth::{identity_of, may_use_port, port_refusal};
use crate::server::session::{
    admission, answer, first_frame_of, relay_start, AdmissionView, ControlActionView,
    FirstFrameView, RelayStartView,
};
use crate::server::state::{registration, DataTransport, SessionView, StateView};
use vstd::prelude::*;

verus! {

/// A client that waits for the answer to its `hello`.
pub open spec fn waiting() -> ClientSessionView {
    ClientSessionView { phase: Phase::AwaitHello, session_id: None }
}

/// The protocol version is compatible with itself.
pub proof fn law_same_version_is_compatible()
    ensures
        compatible(VERSION@),
{
    law_compatible_versions(VERSION@);
    reveal_strlit("1.0");
    assert("1.0"@.len() == 3 && "1.0"@[0] == '1' && "1.0"@[1] == '.');
}

/// The `hello` of a client starts a session over either transport: the server
/// judges its token and nothing else.
pub proof fn law_hello_is_judged_by_token<T>(
    state: StateView<T>,
    token: Seq<char>,
    data: DataTransport,
    id: Seq<char>,
)
    ensures
        first_frame_of(Ok(hello_view(token)), data) == (FirstFrameView::Control {
            version: VERSION@,
            token,
            hostname: None,
        }),
        admission(state, VERSION@, token, data, id) is Accepted <==> identity_of(
            state.policy,
            token,
        ) is Some,
{
    law_same_version_is_compatible();
}

/// A client that the server refuses gives up for good and names the reason that
/// the server gave.
pub proof fn law_refused_client_gives_up<T>(
    state: StateView<T>,
    version: Seq<char>,
    token: Seq<char>,
    data: DataTransport,
    id: Seq<char>,
    proxies: Seq<ProxyConfig>,
)
    ensures
        admission(state, version, token, data, id) matches AdmissionView::Refused(reply) ==> (reply
            matches MessageView::Error { code, message } && on_hello_reply(
            proxies,
            waiting(),
            Some(reply),
        ) == (
            waiting(),
            ClientActionView::Stop(RunErrorView::Fatal(FailureView::Rejected { code, message })),
        )),
{
}

/// A client with a token that stands for nobody is told that authentication
/// failed, and gives up for good.
pub proof fn law_wrong_token_is_fatal<T>(
    state: StateView<T>,
    token: Seq<char>,
    data: DataTransport,
    id: Seq<char>,
    proxies: Seq<ProxyConfig>,
)
    requires
        identity_of(state.policy, token) is None,
    ensures
        admission(state, VERSION@, token, data, id) matches AdmissionView::Refused(reply)
            && on_hello_reply(proxies, waiting(), Some(reply)).1 == ClientActionView::Stop(
            RunErrorView::Fatal(
                FailureView::Rejected {
                    code: "auth_failed"@,
                    message: "authentication failed"@,
                },
            ),
        ),
{
}

/// A client that the server admits takes the id of its session and registers its
/// first proxy.
pub proof fn law_admitted_client_registers<T>(
    state: StateView<T>,
    token: Seq<char>,
    data: DataTransport,
    id: Seq<char>,
    proxies: Seq<ProxyConfig>,
)
    requires
        identity_of(state.policy, token) is Some,
    ensures
        admission(state, VERSION@, token, data, id) matches AdmissionView::Accepted {
            session,
            reply,
        } && session.id == id && on_hello_reply(proxies, waiting(), Some(reply)) == (
            ClientSessionView { phase: advance(proxies, 0).0, session_id: Some(id) },
            advance(proxies, 0).1,
        ),
{
    law_same_version_is_compatible();
}

/// A client whose proxy the server refuses ends its session with the reason that
/// the server gave, and tries again.
pub proof fn law_refused_proxy_is_retried<T>(
    state: StateView<T>,
    session: SessionView,
    p: ProxyConfig,
    proxies: Seq<ProxyConfig>,
    client: ClientSessionView,
    done: usize,
    text: Seq<char>,
)
    requires
        registration(state, session.identity, p.name@, p.proxy_type, Some(p.remote_port), None)
            == Err::<u16, Seq<char>>(text),
    ensures
        answer(state, session, register_view(p)) matches ControlActionView::Send(reply)
            && on_register_reply(proxies, client, done, Some(reply)) == (
            client,
            retry_view(FailureView::RegisterRefused { name: p.name@, error: Some(text) }),
        ),
{
}

/// A client that asks for a port that it may not use is told so and tries again.
pub proof fn law_unauthorized_port_is_retried<T>(
    state: StateView<T>,
    session: SessionView,
    p: ProxyConfig,
    proxies: Seq<ProxyConfig>,
    client: ClientSessionView,
    done: usize,
)
    requires
        p.proxy_type == ProxyType::Tcp,
        p.remote_port != 0,
        !may_use_port(session.identity, p.remote_port),
    ensures
        answer(state, session, register_view(p)) matches ControlActionView::Send(reply)
            && on_register_reply(proxies, client, done, Some(reply)).1 == retry_view(
            FailureView::RegisterRefused {
                name: p.name@,
                error: Some(port_refusal(session.identity, p.remote_port)),
            },
        ),
{
    law_refused_proxy_is_retried(
        state,
        session,
        p,
        proxies,
        client,
        done,
        port_refusal(session.identity, p.remote_port),
    );
}

/// A client whose proxy the server accepts goes on with the next.
pub proof fn law_accepted_proxy_is_followed(
    p: ProxyConfig,
    proxies: Seq<ProxyConfig>,
    client: ClientSessionView,
    done: usize,
)
    ensures
        on_register_reply(
            proxies,
            client,
            done,
            Some(MessageView::RegisterProxyAck { name: p.name@, ok: true, error: None }),
        ) == (
            ClientSessionView { phase: advance(proxies, done as nat + 1).0, ..client },
            advance(proxies, done as nat + 1).1,
        ),
{
}

/// Over TCP the number of a user connection comes back to the server: the client
/// that is told of it opens a tunnel, and the first frame of that tunnel leads to
/// the same user connection.
pub proof fn law_tcp_tunnel_returns(conn_id: u64, proxy_name: Seq<char>)
    ensures
        relay_start(DataTransport::Tcp, conn_id, proxy_name) matches RelayStartView::Notify(m)
            && on_message(Transport::Tcp, m) == (ClientActionView::OpenTunnel {
            conn_id,
            proxy_name,
        }),
        first_frame_of(
            Ok::<MessageView, ParseErrorView>(MessageView::ConnInit { conn_id, proxy_name }),
            DataTransport::Tcp,
        ) == (FirstFrameView::Data { conn_id }),
{
}

/// Over QUIC the first frame of the stream that the server opens leads the client
/// to the local service of the proxy.
pub proof fn law_quic_stream_finds_service(
    conn_id: u64,
    proxy_name: Seq<char>,
    proxies: Seq<ProxyConfig>,
    local_addr: Seq<char>,
)
    requires
        local_addr_of(proxies, proxy_name) == Some(local_addr),
    ensures
        relay_start(DataTransport::Quic, conn_id, proxy_name) matches RelayStartView::OpenStream(m)
            && data_stream_of(proxies, Ok::<MessageView, ParseErrorView>(m)) == (
        DataStreamView::Bridge { conn_id, local_addr }),
{
}

/// Bytes that follow the first frame of a tunnel are left for the user
/// connection.
pub proof fn law_tunnel_bytes_are_kept(conn_id: u64, proxy_name: Seq<char>, bytes: Seq<u8>)
    requires
        encoded(MessageView::ConnInit { conn_id, proxy_name }).len() <= MAX_FRAME,
        parsed(encoded(MessageView::ConnInit { conn_id, proxy_name })) == Ok::<
            MessageView,
            ParseErrorView,
        >(MessageView::ConnInit { conn_id, proxy_name }),
    ensures
        front(framed(encoded(MessageView::ConnInit { conn_id, proxy_name })) + bytes) matches
            Front::Frame { payload, rest } && rest == bytes && first_frame_of(
            parsed(payload),
            DataTransport::Tcp,
        ) == (FirstFrameView::Data { conn_id }),
{
    law_sent_message_is_received(MessageView::ConnInit { conn_id, proxy_name }, bytes);
}

/// A tunnel reaches the user connection with its number, whatever other user
/// connections begin to wait or get their tunnels meanwhile; once their time is
/// over, it finds nobody.
pub proof fn law_tunnel_reaches_its_user<T>(
    pending: Map<u64, T>,
    conn_id: u64,
    waiter: T,
    other: u64,
    other_waiter: T,
)
    requires
        other != conn_id,
    ensures
        pending.insert(conn_id, waiter).contains_pair(conn_id, waiter),
        pending.insert(conn_id, waiter).insert(other, other_waiter).contains_pair(conn_id, waiter),
        pending.insert(conn_id, waiter).remove(other).contains_pair(conn_id, waiter),
        !pending.insert(conn_id, waiter).remove(conn_id).contains_key(conn_id),
{
}

/// Before a client is admitted, the server answers anything but `hello` and
/// `conn_init` with an error or not at all, and the client that gets the error
/// gives up.
pub proof fn law_first_frame_refusal_is_fatal(
    m: MessageView,
    data: DataTransport,
    proxies: Seq<ProxyConfig>,
)
    requires
        !(m is Hello),
        !(m is ConnInit && data == DataTransport::Tcp),
    ensures
        first_frame_of(Ok::<MessageView, ParseErrorView>(m), data) matches FirstFrameView::Refuse(
            reply,
        ) && (reply matches MessageView::Error { code, message } && code
            == "unexpected_message"@ && on_hello_reply(proxies, waiting(), Some(reply)).1
            == ClientActionView::Stop(RunErrorView::Fatal(FailureView::Rejected { code, message }))),
{
}

} // verus!
