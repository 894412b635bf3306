use rfp::client::config::{
    default_server_port, default_true, ClientConfig, ConfigError, ProxyConfig, TlsConfig,
    Transport,
};
use rfp::client::session::{
    after_session, prepare, start, step, uses_early_stream, ClientAction, ClientEvent,
    ClientSession, Failure, Next, Phase, RunError,
};
use rfp::client::tls::{Trust, TlsPlan};
use rfp::client::tunnel::{
    classify_stream, find_local_addr, handle_new_conn, handle_quic_data, DataStream,
};
use rfp::frame::FrameError;
use rfp::msg::{Message, ParseError, ProxyType};

fn proxy(name: &str, port: u16) -> ProxyConfig {
    ProxyConfig {
        name: name.into(),
        proxy_type: ProxyType::Tcp,
        local_addr: format!("127.0.0.1:{port}"),
        remote_port: port,
    }
}

fn config(transport: Transport, proxies: Vec<ProxyConfig>) -> ClientConfig {
    ClientConfig {
        server_addr: "127.0.0.1".into(),
        server_port: 7000,
        transport,
        token: "secret".into(),
        proxies,
        tls: TlsConfig { enabled: true, server_fingerprint: None },
    }
}

fn hello_ack() -> Message {
    Message::HelloAck { version: "1.0".into(), session_id: "sid".into() }
}

fn ack(name: &str) -> Message {
    Message::RegisterProxyAck { name: name.into(), ok: true, error: None }
}

fn registration(name: &str, port: u16) -> ClientAction {
    ClientAction::Send(Message::RegisterProxy {
        name: name.into(),
        proxy_type: ProxyType::Tcp,
        local_addr: format!("127.0.0.1:{port}"),
        remote_port: Some(port),
        vhost: None,
    })
}

fn established(cfg: &ClientConfig) -> ClientSession {
    let (mut s, _) = start(cfg);
    step(cfg, &mut s, ClientEvent::Received(hello_ack()));
    for p in &cfg.proxies {
        step(cfg, &mut s, ClientEvent::Received(ack(&p.name)));
    }
    assert_eq!(s.phase, Phase::Established);
    s
}

fn retry(f: Failure) -> ClientAction {
    ClientAction::Stop(RunError::Retry(f))
}

#[test]
fn defaults_of_the_client() {
    assert_eq!(default_server_port(), 7000);
    assert!(default_true());
    assert_eq!(Transport::default(), Transport::Tcp);
    assert!(TlsConfig::default().enabled);
    assert_eq!(TlsConfig::default().server_fingerprint, None);
}

#[test]
fn proxies_are_validated() {
    let cfg = |proxies| config(Transport::Tcp, proxies);
    assert_eq!(cfg(vec![]).validate(), Ok(()));
    assert_eq!(cfg(vec![proxy("a", 1), proxy("b", 1)]).validate(), Ok(()));

    let e = cfg(vec![proxy("a", 1), proxy("b", 0), proxy("a", 2)]).validate().unwrap_err();
    assert_eq!(e, ConfigError::ZeroPort("b".into()));
    assert_eq!(e.text(), "proxy `b`: remote_port 不能为 0");

    let e = cfg(vec![proxy("a", 1), proxy("b", 3), proxy("a", 2)]).validate().unwrap_err();
    assert_eq!(e, ConfigError::DuplicateName("a".into()));
    assert_eq!(e.text(), "proxy 名称重复: a");

    let mut udp = proxy("u", 0);
    udp.proxy_type = ProxyType::Udp;
    let e = cfg(vec![udp]).validate().unwrap_err();
    assert_eq!(e, ConfigError::NotTcp("u".into()));
    assert_eq!(e.text(), "proxy `u`: M1 仅支持 type = \"tcp\"");
}

#[test]
fn proxies_are_registered_one_after_the_other() {
    let cfg = config(Transport::Tcp, vec![proxy("a", 6001), proxy("b", 6002)]);
    let (mut s, hello) = start(&cfg);
    assert_eq!(
        hello,
        Message::Hello { version: "1.0".into(), token: "secret".into(), hostname: None }
    );
    assert_eq!(
        step(&cfg, &mut s, ClientEvent::Received(hello_ack())),
        registration("a", 6001)
    );
    assert_eq!(s.session_id.as_deref(), Some("sid"));
    assert_eq!(s.phase, Phase::Registering(0));
    assert_eq!(
        step(&cfg, &mut s, ClientEvent::Received(ack("a"))),
        registration("b", 6002)
    );
    assert_eq!(step(&cfg, &mut s, ClientEvent::Received(ack("b"))), ClientAction::Wait);
    assert_eq!(s.phase, Phase::Established);
}

#[test]
fn a_client_without_proxies_is_established_at_once() {
    let cfg = config(Transport::Tcp, vec![]);
    let (mut s, _) = start(&cfg);
    assert_eq!(step(&cfg, &mut s, ClientEvent::Received(hello_ack())), ClientAction::Wait);
    assert_eq!(s.phase, Phase::Established);
}

#[test]
fn refusals_of_the_handshake_are_final() {
    let cfg = config(Transport::Tcp, vec![]);
    let (mut s, _) = start(&cfg);
    let m = Message::Error { code: "auth_failed".into(), message: "no".into() };
    match step(&cfg, &mut s, ClientEvent::Received(m)) {
        ClientAction::Stop(RunError::Fatal(f)) => {
            assert_eq!(f.text(), "server rejected handshake: auth_failed: no")
        }
        other => panic!("{other:?}"),
    }
    let m = Message::HelloAck { version: "2.0".into(), session_id: "sid".into() };
    match step(&cfg, &mut s, ClientEvent::Received(m)) {
        ClientAction::Stop(RunError::Fatal(f)) => {
            assert_eq!(f.text(), "server protocol version 2.0, client 1.0: incompatible")
        }
        other => panic!("{other:?}"),
    }
    assert_eq!(s.session_id, None);
}

#[test]
fn other_troubles_of_the_handshake_are_tried_again() {
    let cfg = config(Transport::Tcp, vec![proxy("a", 6001)]);
    let pong = Message::Pong { ts: 1 };

    let (mut s, _) = start(&cfg);
    let action = step(&cfg, &mut s, ClientEvent::Received(pong.clone()));
    assert_eq!(action, retry(Failure::UnexpectedReply(Some(pong.clone()))));
    assert_eq!(step(&cfg, &mut s, ClientEvent::Closed), retry(Failure::UnexpectedReply(None)));
    assert_eq!(step(&cfg, &mut s, ClientEvent::Elapsed), retry(Failure::HandshakeTimeout));

    step(&cfg, &mut s, ClientEvent::Received(hello_ack()));
    let action = step(&cfg, &mut s, ClientEvent::Received(pong.clone()));
    assert_eq!(action, retry(Failure::UnexpectedRegisterReply(Some(pong))));
    let action = step(&cfg, &mut s, ClientEvent::Closed);
    assert_eq!(action, retry(Failure::UnexpectedRegisterReply(None)));
    assert_eq!(step(&cfg, &mut s, ClientEvent::Elapsed), retry(Failure::RegisterTimeout));
    let error = Message::Error { code: "x".into(), message: "y".into() };
    let action = step(&cfg, &mut s, ClientEvent::Received(error.clone()));
    assert_eq!(action, retry(Failure::UnexpectedRegisterReply(Some(error))));
    let refused =
        Message::RegisterProxyAck { name: "a".into(), ok: false, error: Some("taken".into()) };
    match step(&cfg, &mut s, ClientEvent::Received(refused)) {
        ClientAction::Stop(RunError::Retry(f)) => {
            assert_eq!(f.text(), "proxy `a` register failed: taken")
        }
        other => panic!("{other:?}"),
    }
    let silent = Message::RegisterProxyAck { name: "a".into(), ok: false, error: None };
    match step(&cfg, &mut s, ClientEvent::Received(silent)) {
        ClientAction::Stop(RunError::Retry(f)) => {
            assert_eq!(f.text(), "proxy `a` register failed: ")
        }
        other => panic!("{other:?}"),
    }
}

#[test]
fn broken_input_is_tried_again_and_unknown_types_are_reported() {
    let cfg = config(Transport::Tcp, vec![proxy("a", 6001)]);
    let complaint = ClientAction::Send(Message::Error {
        code: "unknown_message".into(),
        message: "unknown message type".into(),
    });
    let unknown =
        || ClientEvent::ReadFailed(FrameError::Parse(ParseError::UnknownType("warp".into())));
    let (mut s, _) = start(&cfg);
    assert_eq!(step(&cfg, &mut s, unknown()), complaint);
    assert_eq!(s.phase, Phase::AwaitHello);
    let mut s = established(&cfg);
    assert_eq!(step(&cfg, &mut s, unknown()), complaint);
    assert_eq!(s.phase, Phase::Established);
    assert_eq!(
        step(&cfg, &mut s, ClientEvent::ReadFailed(FrameError::TooBig)),
        retry(Failure::Read(FrameError::TooBig))
    );
    assert_eq!(
        step(&cfg, &mut s, ClientEvent::IoFailed("reset".into())),
        retry(Failure::Io("reset".into()))
    );
}

#[test]
fn established_sessions() {
    let cfg = config(Transport::Tcp, vec![proxy("a", 6001)]);
    let mut s = established(&cfg);
    let mut on = |e: ClientEvent| step(&cfg, &mut s, e);
    assert_eq!(on(ClientEvent::Tick(9)), ClientAction::Send(Message::Ping { ts: 9 }));
    assert_eq!(
        on(ClientEvent::Received(Message::Ping { ts: 5 })),
        ClientAction::Send(Message::Pong { ts: 5 })
    );
    assert_eq!(on(ClientEvent::Received(Message::Pong { ts: 5 })), ClientAction::Wait);
    assert_eq!(on(ClientEvent::Received(hello_ack())), ClientAction::Wait);
    assert_eq!(
        on(ClientEvent::Received(Message::Error { code: "x".into(), message: "y".into() })),
        ClientAction::Wait
    );
    let m = Message::NewConnection { conn_id: 4, proxy_name: "a".into() };
    assert_eq!(
        on(ClientEvent::Received(m)),
        ClientAction::OpenTunnel { conn_id: 4, proxy_name: "a".into() }
    );
    assert_eq!(on(ClientEvent::StreamOpened), ClientAction::Wait);
    assert_eq!(on(ClientEvent::StreamsLost), ClientAction::Wait);
    assert_eq!(on(ClientEvent::Elapsed), ClientAction::Wait);
    let end = on(ClientEvent::Closed);
    assert_eq!(end, retry(Failure::ControlClosed(Transport::Tcp)));
}

#[test]
fn quic_sessions_get_their_tunnels_as_streams() {
    let cfg = config(Transport::Quic, vec![proxy("a", 6001)]);
    let (mut s, _) = start(&cfg);
    assert_eq!(step(&cfg, &mut s, ClientEvent::StreamOpened), ClientAction::Wait);
    assert_eq!(step(&cfg, &mut s, ClientEvent::Tick(1)), ClientAction::Wait);
    let mut s = established(&cfg);
    assert_eq!(step(&cfg, &mut s, ClientEvent::StreamOpened), ClientAction::ServeStream);
    let m = Message::NewConnection { conn_id: 4, proxy_name: "a".into() };
    assert_eq!(step(&cfg, &mut s, ClientEvent::Received(m)), ClientAction::Wait);
    assert_eq!(step(&cfg, &mut s, ClientEvent::StreamsLost), retry(Failure::ConnectionLost));
    let end = step(&cfg, &mut s, ClientEvent::Closed);
    assert_eq!(end, retry(Failure::ControlClosed(Transport::Quic)));
    assert!(uses_early_stream(true, true));
    assert!(!uses_early_stream(true, false));
    assert!(!uses_early_stream(false, true));
}

#[test]
fn only_final_failures_end_the_client() {
    assert_eq!(
        after_session(Err(RunError::Fatal(Failure::QuicNeedsTls))),
        Next::GiveUp(Failure::QuicNeedsTls)
    );
    assert_eq!(
        after_session(Err(RunError::Retry(Failure::ConnectionLost))),
        Next::Reconnect { after_secs: 5 }
    );
    assert_eq!(after_session(Ok(())), Next::Done);
}

#[test]
fn texts_of_failures() {
    for (f, text) in [
        (Failure::HandshakeTimeout, "handshake timeout"),
        (Failure::UnexpectedReply(None), "unexpected handshake reply: None"),
        (Failure::RegisterTimeout, "register ack timeout"),
        (
            Failure::UnexpectedRegisterReply(Some(Message::Pong { ts: -4 })),
            "unexpected register reply: Some(Pong { ts: -4 })",
        ),
        (Failure::ControlClosed(Transport::Tcp), "control connection closed"),
        (Failure::ControlClosed(Transport::Quic), "control stream closed"),
        (Failure::ConnectionLost, "quic connection lost"),
        (Failure::Read(FrameError::Truncated), "io: bytes remaining on stream"),
        (Failure::Io("reset".into()), "reset"),
    ] {
        assert_eq!(f.text(), text);
    }
    assert!(Failure::QuicNeedsTls.text().contains("tls.enabled = false"));
    assert!(Failure::InvalidFingerprint.text().contains("64"));
}

#[test]
fn configurations_are_prepared() {
    let mut cfg = config(Transport::Quic, vec![]);
    cfg.tls.enabled = false;
    assert_eq!(prepare(&cfg), Err(Failure::QuicNeedsTls));
    cfg.transport = Transport::Tcp;
    assert_eq!(prepare(&cfg), Ok(TlsPlan::Plain));
    cfg.tls.enabled = true;
    assert_eq!(prepare(&cfg), Ok(TlsPlan::Encrypted(Trust::SystemRoots)));
    cfg.tls.server_fingerprint = Some("AB".repeat(32));
    assert_eq!(prepare(&cfg), Ok(TlsPlan::Encrypted(Trust::Pinned("ab".repeat(32)))));
    cfg.tls.server_fingerprint = Some("AB".repeat(31));
    assert_eq!(prepare(&cfg), Err(Failure::InvalidFingerprint));
}

#[test]
fn tunnels_lead_to_local_services() {
    let proxies = vec![proxy("a", 1), proxy("b", 2), proxy("a", 3)];
    assert_eq!(find_local_addr(&proxies, &"b".to_string()), Some("127.0.0.1:2".into()));
    assert_eq!(find_local_addr(&proxies, &"a".to_string()), Some("127.0.0.1:3".into()));
    assert_eq!(find_local_addr(&proxies, &"c".to_string()), None);

    let plan = handle_new_conn(&proxies, 8, "b".into()).unwrap();
    assert_eq!(plan.init, Message::ConnInit { conn_id: 8, proxy_name: "b".into() });
    assert_eq!(plan.local_addr, "127.0.0.1:2");
    assert!(handle_new_conn(&proxies, 8, "c".into()).is_none());

    let init = Message::ConnInit { conn_id: 8, proxy_name: "b".into() };
    assert_eq!(
        handle_quic_data(&proxies, &init.encode()),
        DataStream::Bridge { conn_id: 8, local_addr: "127.0.0.1:2".into() }
    );
    let stray = Message::ConnInit { conn_id: 8, proxy_name: "c".into() };
    assert_eq!(classify_stream(&proxies, Ok(stray)), DataStream::NoSuchProxy { conn_id: 8 });
    assert_eq!(handle_quic_data(&proxies, b"{}"), DataStream::Unexpected);
    assert_eq!(classify_stream(&proxies, Ok(Message::Ping { ts: 1 })), DataStream::Unexpected);
}
