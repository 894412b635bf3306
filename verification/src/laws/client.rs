//! What the client decides: its configuration, its session and its tunnels.
use crate::client::config::{
    named_before, problem_at, sound_before, ClientConfig, ConfigError, ProxyConfig,
};
use crate::client::session::{
    after_session, prepare, start, step, ClientAction, ClientEvent, ClientSession, Failure, Next,
    Phase, RunError, HANDSHAKE_SECS, PING_SECS, RECONNECT_SECS,
};
use crate::client::tls::TlsPlan;
use crate::client::tunnel::{
    classify_stream, data_stream_of, find_local_addr, handle_new_conn, handle_quic_data,
    local_addr_of, DataStream, TunnelPlan,
};
use crate::frame::FrameError;
use crate::laws::server::{major_one, reports};
use crate::laws::trust::{lemma_planned, rightly_planned};
use crate::msg::{law_compatible_versions, opt_text, Message, ParseError};
use vstd::prelude::*;

verus! {

// The configuration.

/// Whether nothing is wrong with the proxy at `i`: it is a TCP proxy, its port is not
/// zero, and no earlier proxy has its name.
pub open spec fn proxy_is_sound(proxies: Seq<ProxyConfig>, i: int) -> bool {
    &&& proxies[i].proxy_type is Tcp
    &&& proxies[i].remote_port != 0
    &&& forall|j: int| 0 <= j < i ==> (#[trigger] proxies[j]).name@ != proxies[i].name@
}

/// A configuration is valid exactly if nothing is wrong with any of its proxies;
/// otherwise the first that something is wrong with is named, with what it is.
pub proof fn law_validate(cfg: &ClientConfig, r: Result<(), ConfigError>)
    requires
        call_ensures(ClientConfig::validate, (cfg,), r),
    ensures
        r is Ok <==> forall|i: int|
            0 <= i < cfg.proxies@.len() ==> #[trigger] proxy_is_sound(cfg.proxies@, i),
        forall|i: int|
            0 <= i < cfg.proxies@.len() && !(#[trigger] proxy_is_sound(cfg.proxies@, i)) && (
            forall|j: int| 0 <= j < i ==> #[trigger] proxy_is_sound(cfg.proxies@, j)) ==> match r {
                Ok(_) => false,
                Err(ConfigError::NotTcp(name)) => !(cfg.proxies@[i].proxy_type is Tcp) && name@
                    == cfg.proxies@[i].name@,
                Err(ConfigError::ZeroPort(name)) => cfg.proxies@[i].proxy_type is Tcp
                    && cfg.proxies@[i].remote_port == 0 && name@ == cfg.proxies@[i].name@,
                Err(ConfigError::DuplicateName(name)) => cfg.proxies@[i].proxy_type is Tcp
                    && cfg.proxies@[i].remote_port != 0 && name@ == cfg.proxies@[i].name@,
            },
{
    let all = cfg.proxies@;
    assert forall|i: int| 0 <= i < all.len() implies #[trigger] proxy_is_sound(all, i) == (
    problem_at(all, i) is None) by {
        if !named_before(all, i, all[i].name@) {
            assert forall|j: int| 0 <= j < i implies (#[trigger] all[j]).name@ != all[i].name@ by {}
        }
    }
    if let Err(e) = r {
        let k = choose|k: int|
            0 <= k < all.len() && #[trigger] problem_at(all, k) == Some(e@) && sound_before(all, k);
        assert(!proxy_is_sound(all, k));
        assert forall|i: int|
            0 <= i < all.len() && !(#[trigger] proxy_is_sound(all, i)) && (forall|j: int|
                0 <= j < i ==> #[trigger] proxy_is_sound(all, j)) implies i == k by {
            if i < k {
                assert(problem_at(all, i) is None);
            } else if k < i {
                assert(proxy_is_sound(all, k));
            }
        }
    } else {
        assert forall|i: int| 0 <= i < all.len() implies #[trigger] proxy_is_sound(all, i) by {
            assert(problem_at(all, i) is None);
        }
    }
}

/// A configuration error names the proxy and says what is wrong with it.
pub proof fn law_config_error_text(e: &ConfigError, text: String)
    requires
        call_ensures(ConfigError::text, (e,), text),
    ensures
        match e {
            ConfigError::NotTcp(name) => text@ == "proxy `"@ + name@
                + "`: M1 仅支持 type = \"tcp\""@,
            ConfigError::ZeroPort(name) => text@ == "proxy `"@ + name@
                + "`: remote_port 不能为 0"@,
            ConfigError::DuplicateName(name) => text@ == "proxy 名称重复: "@ + name@,
        },
{
}

/// A client is prepared unless QUIC is to run without encryption, or its fingerprint
/// is none; connections are then secured as the configuration says.
pub proof fn law_prepare(cfg: &ClientConfig, r: Result<TlsPlan, Failure>)
    requires
        call_ensures(prepare, (cfg,), r),
    ensures
        if cfg.transport is Quic && !cfg.tls.enabled {
            r == Err::<TlsPlan, Failure>(Failure::QuicNeedsTls)
        } else {
            match r {
                Ok(plan) => rightly_planned(cfg.tls, Some(plan)),
                Err(f) => f is InvalidFingerprint && rightly_planned(cfg.tls, None),
            }
        },
{
    lemma_planned(cfg.tls);
}

// The session.

/// A client introduces itself with its version and its token, and waits for the
/// answer.
pub proof fn law_start(cfg: &ClientConfig, r: (ClientSession, Message))
    requires
        call_ensures(start, (cfg,), r),
    ensures
        r.0.phase is AwaitHello,
        r.0.session_id is None,
        r.1 matches Message::Hello { version, token, hostname } && version@ == "1.0"@ && token@
            == cfg.token@ && hostname is None,
{
}

/// Whether two sessions are the same.
pub open spec fn same_session(a: ClientSession, b: ClientSession) -> bool {
    a.phase == b.phase && opt_text(a.session_id) == opt_text(b.session_id)
}

/// Whether an action asks the server to register a proxy.
pub open spec fn registers(a: ClientAction, p: ProxyConfig) -> bool {
    a matches ClientAction::Send(
        Message::RegisterProxy { name, proxy_type, local_addr, remote_port, vhost },
    ) && name@ == p.name@ && proxy_type == p.proxy_type && local_addr@ == p.local_addr@
        && remote_port == Some(p.remote_port) && vhost is None
}

/// Whether a session whose server has accepted the first `n` proxies goes on as it
/// should: it registers the next one, or is established if none is left.
pub open spec fn goes_on(cfg: ClientConfig, n: int, after: ClientSession, a: ClientAction) -> bool {
    if n < cfg.proxies@.len() {
        after.phase == Phase::Registering(n as usize) && registers(a, cfg.proxies@[n])
    } else {
        after.phase is Established && a is Wait
    }
}

/// Whether an action ends the session after a reply that was not expected, and the
/// session stays as it was.
pub open spec fn unexpected(f: Failure, phase: Phase, reply: Option<Message>) -> bool {
    match f {
        Failure::UnexpectedReply(got) => phase is AwaitHello && match (got, reply) {
            (Some(g), Some(m)) => g@ == m@,
            (None, None) => true,
            _ => false,
        },
        Failure::UnexpectedRegisterReply(got) => phase is Registering && match (got, reply) {
            (Some(g), Some(m)) => g@ == m@,
            (None, None) => true,
            _ => false,
        },
        _ => false,
    }
}

/// Whether a session rightly takes a message of its server.
///
/// Before it is admitted, an acknowledgement with a compatible version gives it its id
/// and lets it register the first proxy; one with another version, and an error report,
/// end it for good. While it registers, a success lets it go on with the next proxy,
/// and a refusal ends it. Anything else ends these two, to be tried again. When it is
/// established, it opens a tunnel over TCP for every user connection that is announced,
/// for whichever proxy, echoes probes, and passes over everything else.
pub open spec fn rightly_taken(
    cfg: ClientConfig,
    before: ClientSession,
    m: Message,
    after: ClientSession,
    a: ClientAction,
) -> bool {
    match before.phase {
        Phase::AwaitHello => match m {
            Message::HelloAck { version, session_id } => if major_one(version@) {
                goes_on(cfg, 0, after, a) && opt_text(after.session_id) == Some(session_id@)
            } else {
                same_session(after, before) && (a matches ClientAction::Stop(
                    RunError::Fatal(Failure::Incompatible { version: v }),
                ) && v@ == version@)
            },
            Message::Error { code, message } => same_session(after, before) && (a matches
                ClientAction::Stop(RunError::Fatal(Failure::Rejected { code: c, message: t })) && c@
                == code@ && t@ == message@),
            _ => same_session(after, before) && (a matches ClientAction::Stop(RunError::Retry(f))
                && unexpected(f, before.phase, Some(m))),
        },
        Phase::Registering(done) => match m {
            Message::RegisterProxyAck { name, ok, error } => if ok {
                goes_on(cfg, done + 1, after, a) && opt_text(after.session_id) == opt_text(
                    before.session_id,
                )
            } else {
                same_session(after, before) && (a matches ClientAction::Stop(
                    RunError::Retry(Failure::RegisterRefused { name: n, error: e }),
                ) && n@ == name@ && opt_text(e) == opt_text(error))
            },
            _ => same_session(after, before) && (a matches ClientAction::Stop(RunError::Retry(f))
                && unexpected(f, before.phase, Some(m))),
        },
        Phase::Established => same_session(after, before) && match m {
            Message::NewConnection { conn_id, proxy_name } => if cfg.transport is Tcp {
                a matches ClientAction::OpenTunnel { conn_id: c, proxy_name: n } && c == conn_id
                    && n@ == proxy_name@
            } else {
                a is Wait
            },
            Message::Ping { ts } => a == ClientAction::Send(Message::Pong { ts }),
            _ => a is Wait,
        },
    }
}

/// A session takes every event as it should: messages as above; a message of an unknown
/// type is reported; what cannot be read, a transport that fails and a server that is
/// gone or silent end it, to be tried again; an established session probes when it is
/// time, and over QUIC serves the streams that the server opens and ends when there can
/// be none.
pub proof fn law_step(
    cfg: &ClientConfig,
    session: &mut ClientSession,
    event: ClientEvent,
    a: ClientAction,
)
    requires
        call_ensures(step, (cfg, session, event), a),
    ensures
        event matches ClientEvent::Received(m) ==> rightly_taken(
            *cfg,
            *old(session),
            m,
            *final(session),
            a,
        ),
        !(event is Received) ==> same_session(*final(session), *old(session)),
        match event {
            ClientEvent::Received(_) => true,
            ClientEvent::ReadFailed(FrameError::Parse(ParseError::UnknownType(_))) => a matches
                ClientAction::Send(m) && reports(
                m,
                "unknown_message"@,
                "unknown message type"@,
            ),
            ClientEvent::ReadFailed(e) => a == ClientAction::Stop(
                RunError::Retry(Failure::Read(e)),
            ),
            ClientEvent::Closed => match old(session).phase {
                Phase::Established => a == ClientAction::Stop(
                    RunError::Retry(Failure::ControlClosed(cfg.transport)),
                ),
                phase => a matches ClientAction::Stop(RunError::Retry(f)) && unexpected(
                    f,
                    phase,
                    None,
                ),
            },
            ClientEvent::IoFailed(text) => a matches ClientAction::Stop(
                RunError::Retry(Failure::Io(t)),
            ) && t@ == text@,
            ClientEvent::Elapsed => match old(session).phase {
                Phase::AwaitHello => a == ClientAction::Stop(
                    RunError::Retry(Failure::HandshakeTimeout),
                ),
                Phase::Registering(_) => a == ClientAction::Stop(
                    RunError::Retry(Failure::RegisterTimeout),
                ),
                Phase::Established => a is Wait,
            },
            ClientEvent::Tick(now) => if old(session).phase is Established {
                a == ClientAction::Send(Message::Ping { ts: now })
            } else {
                a is Wait
            },
            ClientEvent::StreamOpened => if old(session).phase is Established && cfg.transport
                is Quic {
                a is ServeStream
            } else {
                a is Wait
            },
            ClientEvent::StreamsLost => if old(session).phase is Established && cfg.transport
                is Quic {
                a == ClientAction::Stop(RunError::Retry(Failure::ConnectionLost))
            } else {
                a is Wait
            },
        },
{
    if let ClientEvent::Received(m) = event {
        if let Message::HelloAck { version, session_id } = m {
            law_compatible_versions(version@);
        }
    }
}

/// Over TCP an established session opens a tunnel for every user connection that the
/// server announces, with the number and the proxy that were announced, and stays as it
/// is.
pub proof fn law_announced_connection_gets_tunnel(
    cfg: &ClientConfig,
    session: &mut ClientSession,
    conn_id: u64,
    proxy_name: String,
    a: ClientAction,
)
    requires
        call_ensures(
            step,
            (cfg, session, ClientEvent::Received(Message::NewConnection { conn_id, proxy_name })),
            a,
        ),
        old(session).phase is Established,
        cfg.transport is Tcp,
    ensures
        a matches ClientAction::OpenTunnel { conn_id: c, proxy_name: n } && c == conn_id && n@
            == proxy_name@,
        same_session(*final(session), *old(session)),
{
}

/// A session that ended is tried again after five seconds, unless trying again is of no
/// use.
pub proof fn law_after_session(end: Result<(), RunError>, next: Next)
    requires
        call_ensures(after_session, (end,), next),
    ensures
        match end {
            Ok(_) => next is Done,
            Err(RunError::Fatal(f)) => next == Next::GiveUp(f),
            Err(RunError::Retry(_)) => next == (Next::Reconnect { after_secs: 5 }),
        },
{
}

// Tunnels.

proof fn lemma_last_with_name(proxies: Seq<ProxyConfig>, name: Seq<char>, i: int)
    requires
        0 <= i < proxies.len(),
        proxies[i].name@ == name,
        forall|j: int| i < j < proxies.len() ==> (#[trigger] proxies[j]).name@ != name,
    ensures
        local_addr_of(proxies, name) == Some(proxies[i].local_addr@),
    decreases proxies.len(),
{
    if i < proxies.len() - 1 {
        let rest = proxies.drop_last();
        assert(proxies[proxies.len() - 1].name@ != name);
        assert forall|j: int| i < j < rest.len() implies (#[trigger] rest[j]).name@ != name by {
            assert(rest[j] == proxies[j]);
        }
        lemma_last_with_name(rest, name, i);
    }
}

proof fn lemma_none_with_name(proxies: Seq<ProxyConfig>, name: Seq<char>)
    ensures
        local_addr_of(proxies, name) is None <==> forall|j: int|
            0 <= j < proxies.len() ==> (#[trigger] proxies[j]).name@ != name,
    decreases proxies.len(),
{
    if proxies.len() > 0 {
        let rest = proxies.drop_last();
        lemma_none_with_name(rest, name);
        if proxies.last().name@ == name {
            assert(proxies[proxies.len() - 1].name@ == name);
        } else if local_addr_of(proxies, name) is None {
            assert forall|j: int| 0 <= j < proxies.len() implies (#[trigger] proxies[j]).name@
                != name by {
                if j < rest.len() {
                    assert(rest[j] == proxies[j]);
                }
            }
        } else {
            let j = choose|j: int| 0 <= j < rest.len() && (#[trigger] rest[j]).name@ == name;
            assert(proxies[j].name@ == name);
        }
    }
}

/// Whether an address is that of the local service of the last proxy with this name;
/// none if no proxy has it.
pub open spec fn leads_to(
    proxies: Seq<ProxyConfig>,
    name: Seq<char>,
    addr: Option<String>,
) -> bool {
    match addr {
        Some(a) => exists|i: int|
            0 <= i < proxies.len() && (#[trigger] proxies[i]).name@ == name && a@
                == proxies[i].local_addr@ && (forall|j: int|
                i < j < proxies.len() ==> (#[trigger] proxies[j]).name@ != name),
        None => forall|j: int| 0 <= j < proxies.len() ==> (#[trigger] proxies[j]).name@ != name,
    }
}

proof fn lemma_last_exists(proxies: Seq<ProxyConfig>, name: Seq<char>, k: int) -> (i: int)
    requires
        0 <= k < proxies.len(),
        proxies[k].name@ == name,
    ensures
        0 <= i < proxies.len(),
        proxies[i].name@ == name,
        forall|j: int| i < j < proxies.len() ==> (#[trigger] proxies[j]).name@ != name,
    decreases proxies.len() - k,
{
    if forall|j: int| k < j < proxies.len() ==> (#[trigger] proxies[j]).name@ != name {
        k
    } else {
        let j = choose|j: int| k < j < proxies.len() && (#[trigger] proxies[j]).name@ == name;
        lemma_last_exists(proxies, name, j)
    }
}

proof fn lemma_leads_to(proxies: Seq<ProxyConfig>, name: Seq<char>, addr: Option<String>)
    requires
        local_addr_of(proxies, name) == opt_text(addr),
    ensures
        leads_to(proxies, name, addr),
{
    lemma_none_with_name(proxies, name);
    if addr is Some {
        let k = choose|k: int| 0 <= k < proxies.len() && (#[trigger] proxies[k]).name@ == name;
        let i = lemma_last_exists(proxies, name, k);
        lemma_last_with_name(proxies, name, i);
    }
}

/// The name of a proxy leads to its local service.
pub proof fn law_find_local_addr(
    proxies: &Vec<ProxyConfig>,
    name: &String,
    addr: Option<String>,
)
    requires
        call_ensures(find_local_addr, (proxies, name), addr),
    ensures
        leads_to(proxies@, name@, addr),
{
    lemma_leads_to(proxies@, name@, addr);
}

/// A user connection gets a tunnel exactly if its proxy is known: the first frame
/// carries its number and the name of the proxy, and the other end is the local service.
pub proof fn law_handle_new_conn(
    proxies: &Vec<ProxyConfig>,
    conn_id: u64,
    proxy_name: String,
    plan: Option<TunnelPlan>,
)
    requires
        call_ensures(handle_new_conn, (proxies, conn_id, proxy_name), plan),
    ensures
        match plan {
            Some(p) => (p.init matches Message::ConnInit { conn_id: c, proxy_name: n } && c
                == conn_id && n@ == proxy_name@) && leads_to(
                proxies@,
                proxy_name@,
                Some(p.local_addr),
            ),
            None => leads_to(proxies@, proxy_name@, None),
        },
{
    let addr: Option<String> = match plan {
        Some(p) => Some(p.local_addr),
        None => None,
    };
    lemma_leads_to(proxies@, proxy_name@, addr);
}

/// Whether a stream is rightly taken for `d`: its first frame must be `conn_init`, which
/// gives the number of the user connection and leads to the local service of its proxy.
pub open spec fn rightly_served(
    proxies: Seq<ProxyConfig>,
    first: Result<Message, ParseError>,
    d: DataStream,
) -> bool {
    match first {
        Ok(Message::ConnInit { conn_id, proxy_name }) => match d {
            DataStream::Bridge { conn_id: c, local_addr } => c == conn_id && leads_to(
                proxies,
                proxy_name@,
                Some(local_addr),
            ),
            DataStream::NoSuchProxy { conn_id: c } => c == conn_id && leads_to(
                proxies,
                proxy_name@,
                None,
            ),
            DataStream::Unexpected => false,
        },
        _ => d is Unexpected,
    }
}

proof fn lemma_rightly_served(
    proxies: Seq<ProxyConfig>,
    first: Result<Message, ParseError>,
    d: DataStream,
)
    requires
        match first {
            Ok(m) => d@ == data_stream_of(proxies, Ok(m@)),
            Err(e) => d@ == data_stream_of(proxies, Err(e@)),
        },
    ensures
        rightly_served(proxies, first, d),
{
    if let Ok(Message::ConnInit { conn_id, proxy_name }) = first {
        let addr: Option<String> = match d {
            DataStream::Bridge { conn_id: _, local_addr } => Some(local_addr),
            _ => None,
        };
        lemma_leads_to(proxies, proxy_name@, addr);
    }
}

/// A stream is taken for what its parsed first frame says.
pub proof fn law_classify_stream(
    proxies: &Vec<ProxyConfig>,
    first: Result<Message, ParseError>,
    d: DataStream,
)
    requires
        call_ensures(classify_stream, (proxies, first), d),
    ensures
        rightly_served(proxies@, first, d),
{
    lemma_rightly_served(proxies@, first, d);
}

/// A stream is taken for what the message that its first frame parses to says.
pub proof fn law_handle_quic_data(
    proxies: &Vec<ProxyConfig>,
    payload: &[u8],
    first: Result<Message, ParseError>,
    d: DataStream,
)
    requires
        call_ensures(Message::parse, (payload,), first),
        call_ensures(handle_quic_data, (proxies, payload), d),
    ensures
        rightly_served(proxies@, first, d),
{
    lemma_rightly_served(proxies@, first, d);
}

/// The server has ten seconds for each answer of the handshake, a lost session is tried
/// again after five, and an established one probes every thirty.
pub proof fn law_client_times()
    ensures
        HANDSHAKE_SECS == 10,
        RECONNECT_SECS == 5,
        PING_SECS == 30,
{
}

/// A client that is admitted takes the id that it is given, and asks for its first proxy,
/// with all that the configuration says of it; without proxies it is established.
pub proof fn law_admitted_registers_first(
    cfg: &ClientConfig,
    session: &mut ClientSession,
    version: String,
    session_id: String,
    a: ClientAction,
)
    requires
        call_ensures(
            step,
            (cfg, session, ClientEvent::Received(Message::HelloAck { version, session_id })),
            a,
        ),
        old(session).phase is AwaitHello,
        version@.len() >= 1 && version@[0] == '1' && (version@.len() >= 2 ==> version@[1] == '.'),
    ensures
        final(session).session_id matches Some(id) && id@ == session_id@,
        cfg.proxies@.len() == 0 ==> final(session).phase is Established && a is Wait,
        cfg.proxies@.len() > 0 ==> final(session).phase == Phase::Registering(0) && (a matches
            ClientAction::Send(
            Message::RegisterProxy { name, proxy_type, local_addr, remote_port, vhost },
        ) && name@ == cfg.proxies@[0].name@ && proxy_type == cfg.proxies@[0].proxy_type
            && local_addr@ == cfg.proxies@[0].local_addr@ && remote_port == Some(
            cfg.proxies@[0].remote_port,
        ) && vhost is None),
{
    law_compatible_versions(version@);
}

/// When the server accepts a proxy, the client asks for the next one, with all that the
/// configuration says of it; after the last it is established.
pub proof fn law_accepted_registers_next(
    cfg: &ClientConfig,
    session: &mut ClientSession,
    done: usize,
    name: String,
    error: Option<String>,
    a: ClientAction,
)
    requires
        call_ensures(
            step,
            (
                cfg,
                session,
                ClientEvent::Received(Message::RegisterProxyAck { name, ok: true, error }),
            ),
            a,
        ),
        old(session).phase == Phase::Registering(done),
        done < cfg.proxies@.len(),
    ensures
        opt_text(final(session).session_id) == opt_text(old(session).session_id),
        done + 1 == cfg.proxies@.len() ==> final(session).phase is Established && a is Wait,
        done + 1 < cfg.proxies@.len() ==> final(session).phase == Phase::Registering(
            (done + 1) as usize,
        ) && (a matches ClientAction::Send(
            Message::RegisterProxy { name: n, proxy_type, local_addr, remote_port, vhost },
        ) && n@ == cfg.proxies@[done + 1].name@ && proxy_type == cfg.proxies@[done + 1].proxy_type
            && local_addr@ == cfg.proxies@[done + 1].local_addr@ && remote_port == Some(
            cfg.proxies@[done + 1].remote_port,
        ) && vhost is None),
{
}

/// An established session echoes probes and passes over whatever else the server says,
/// and stays as it is; no message ends it.
pub proof fn law_established_takes_messages(
    cfg: &ClientConfig,
    session: &mut ClientSession,
    m: Message,
    a: ClientAction,
)
    requires
        call_ensures(step, (cfg, session, ClientEvent::Received(m)), a),
        old(session).phase is Established,
    ensures
        final(session).phase is Established,
        opt_text(final(session).session_id) == opt_text(old(session).session_id),
        m matches Message::Ping { ts } ==> a == ClientAction::Send(Message::Pong { ts }),
        !(m is Ping) && !(m is NewConnection && cfg.transport is Tcp) ==> a is Wait,
{
}

/// Of the events that end a session, a refusal of the handshake and a server of another
/// version end it for good, and no others.
pub proof fn law_gives_up_only_if_refused(
    cfg: &ClientConfig,
    session: &mut ClientSession,
    event: ClientEvent,
    a: ClientAction,
)
    requires
        call_ensures(step, (cfg, session, event), a),
    ensures
        (a matches ClientAction::Stop(end) && end is Fatal) <==> old(session).phase is AwaitHello
            && (event matches ClientEvent::Received(m) && match m {
            Message::HelloAck { version, session_id: _ } => !(version@.len() >= 1 && version@[0]
                == '1' && (version@.len() >= 2 ==> version@[1] == '.')),
            Message::Error { .. } => true,
            _ => false,
        }),
{
    if let ClientEvent::Received(Message::HelloAck { version, session_id: _ }) = event {
        law_compatible_versions(version@);
    }
}

} // verus!
