//! Client and server against each other, with every message put on the wire.
use rfp::client::config::{ClientConfig, ProxyConfig, TlsConfig, Transport};
use rfp::client::session::{
    start, step, ClientAction, ClientEvent, ClientSession, Phase, RunError,
};
use rfp::client::tunnel::{handle_new_conn, handle_quic_data, DataStream};
use rfp::frame::{read_frame, recv_msg, send_msg, FrameBuffer};
use rfp::msg::{Message, ProxyType};
use rfp::server::config::{QuicConfig, ServerConfig, TlsConfig as ServerTls, UserConfig};
use rfp::server::session::{
    first_frame, handle_control, handle_data_conn, open_session, register_proxy, relay,
    relay_announced, Admission, ControlAction, FirstFrame, RelayStart, SessionEvent,
};
use rfp::server::state::{DataTransport, ServerState, SessionHandle};

/// Puts a message into a frame and takes it out again.
fn wire(m: &Message) -> Message {
    let mut bytes = Vec::new();
    send_msg(&mut bytes, m).unwrap();
    let mut buffer = FrameBuffer::new();
    buffer.push(&bytes);
    recv_msg(&mut buffer).unwrap().unwrap()
}

/// The payload of the frame of a message.
fn payload(m: &Message) -> Vec<u8> {
    let mut bytes = Vec::new();
    send_msg(&mut bytes, m).unwrap();
    read_frame(&bytes).unwrap().unwrap().0
}

fn server(token: &str, users: Vec<UserConfig>) -> ServerState<u32> {
    let cfg = ServerConfig {
        bind_addr: "127.0.0.1".into(),
        bind_port: 7000,
        token: token.into(),
        users,
        tls: ServerTls { enabled: false, cert: None, key: None },
        quic: QuicConfig::default(),
    };
    ServerState::new(cfg.auth_policy().unwrap(), cfg.bind_addr.clone())
}

fn client(transport: Transport, token: &str, ports: &[u16]) -> ClientConfig {
    ClientConfig {
        server_addr: "127.0.0.1".into(),
        server_port: 7000,
        transport,
        token: token.into(),
        proxies: ports
            .iter()
            .map(|port| ProxyConfig {
                name: "echo".into(),
                proxy_type: ProxyType::Tcp,
                local_addr: "127.0.0.1:22".into(),
                remote_port: *port,
            })
            .collect(),
        tls: TlsConfig { enabled: transport == Transport::Quic, server_fingerprint: None },
    }
}

/// Runs a session until the client is established or stops.
fn connect(
    state: &mut ServerState<u32>,
    cfg: &ClientConfig,
) -> (ClientSession, Option<SessionHandle>, Result<(), RunError>) {
    let data = match cfg.transport {
        Transport::Tcp => DataTransport::Tcp,
        Transport::Quic => DataTransport::Quic,
    };
    let (mut c, hello) = start(cfg);
    let (version, token) = match first_frame(&payload(&hello), data) {
        FirstFrame::Control { version, token, .. } => (version, token),
        other => panic!("{other:?}"),
    };
    let (mut handle, reply) = match open_session(state, &version, &token, data) {
        Admission::Accepted { session, reply } => (Some(session), reply),
        Admission::Refused(reply) => (None, reply),
    };
    let mut action = step(cfg, &mut c, ClientEvent::Received(wire(&reply)));
    loop {
        match action {
            ClientAction::Stop(e) => return (c, handle, Err(e)),
            ClientAction::Send(m) => {
                let s = handle.as_mut().unwrap();
                let reply = match handle_control(state, s, SessionEvent::Received(wire(&m))) {
                    ControlAction::Send(reply) => reply,
                    ControlAction::Listen { name, port } => {
                        register_proxy(state, s, name, port, Ok(port))
                    }
                    other => panic!("{other:?}"),
                };
                action = step(cfg, &mut c, ClientEvent::Received(wire(&reply)));
            }
            _ => {
                assert_eq!(c.phase, Phase::Established);
                return (c, handle, Ok(()));
            }
        }
    }
}

#[test]
fn auth_failure_is_fatal() {
    let mut state = server("secret", vec![]);
    let (_, handle, res) = connect(&mut state, &client(Transport::Tcp, "wrong", &[]));
    assert!(handle.is_none());
    assert!(matches!(res, Err(RunError::Fatal(_))));
}

#[test]
fn quic_auth_failure_is_fatal() {
    let mut state = server("secret", vec![]);
    let (_, _, res) = connect(&mut state, &client(Transport::Quic, "wrong", &[]));
    assert!(matches!(res, Err(RunError::Fatal(_))), "unexpected result: {res:?}");
}

fn alice() -> Vec<UserConfig> {
    vec![UserConfig {
        name: "alice".into(),
        token: "alice-token".into(),
        ports: vec!["61000-61010".into()],
        vhosts: vec!["*.alice.dev".into()],
    }]
}

#[test]
fn user_mode_port_authorization() {
    let mut state = server("legacy-ignored", alice());
    let (_, handle, res) = connect(&mut state, &client(Transport::Tcp, "alice-token", &[61005]));
    assert_eq!(res, Ok(()));
    assert_eq!(handle.unwrap().registered[0].port, 61005);

    let (_, _, res) = connect(&mut state, &client(Transport::Tcp, "alice-token", &[16200]));
    match res {
        Err(RunError::Retry(e)) => {
            assert!(e.text().contains("授权范围"), "unexpected error: {}", e.text())
        }
        other => panic!("expect retry error, got: {other:?}"),
    }

    let (_, _, res) = connect(&mut state, &client(Transport::Tcp, "bob-token", &[]));
    assert!(matches!(res, Err(RunError::Fatal(_))));
    let (_, _, res) = connect(&mut state, &client(Transport::Tcp, "legacy-ignored", &[]));
    assert!(matches!(res, Err(RunError::Fatal(_))));
}

#[test]
fn a_conflict_goes_away_with_the_session_that_caused_it() {
    let mut state = server("secret", vec![]);
    let cfg = client(Transport::Quic, "secret", &[16500]);
    let (_, first, res) = connect(&mut state, &cfg);
    assert_eq!(res, Ok(()));
    let (_, second, res) = connect(&mut state, &cfg);
    match res {
        Err(RunError::Retry(e)) => assert!(e.text().contains("同名代理已存在")),
        other => panic!("{other:?}"),
    }
    assert!(state.cleanup_session(&mut second.unwrap()).is_empty());
    assert_eq!(state.cleanup_session(&mut first.unwrap()).len(), 1);
    let (_, _, res) = connect(&mut state, &cfg);
    assert_eq!(res, Ok(()));
}

#[test]
fn tcp_tunnels_come_back_to_their_user() {
    let mut state = server("secret", vec![]);
    let cfg = client(Transport::Tcp, "secret", &[16100]);
    let (mut c, handle, _) = connect(&mut state, &cfg);
    let handle = handle.unwrap();

    let (conn_id, begin) = relay(&mut state, handle.data, "echo");
    let notice = match begin {
        RelayStart::Notify(m) => m,
        other => panic!("{other:?}"),
    };
    let action = match handle_control(&state, &handle, SessionEvent::Command(notice)) {
        ControlAction::Send(m) => step(&cfg, &mut c, ClientEvent::Received(wire(&m))),
        other => panic!("{other:?}"),
    };
    assert!(relay_announced(&mut state, conn_id, true, 4711));
    let plan = match action {
        ClientAction::OpenTunnel { conn_id, proxy_name } => {
            handle_new_conn(&cfg.proxies, conn_id, proxy_name).unwrap()
        }
        other => panic!("{other:?}"),
    };
    assert_eq!(plan.local_addr, "127.0.0.1:22");
    match first_frame(&payload(&plan.init), DataTransport::Tcp) {
        FirstFrame::Data { conn_id } => {
            assert_eq!(handle_data_conn(&mut state, conn_id), Some(4711))
        }
        other => panic!("{other:?}"),
    }
}

#[test]
fn quic_streams_find_the_local_service() {
    let mut state = server("secret", vec![]);
    let cfg = client(Transport::Quic, "secret", &[16400]);
    let (mut c, handle, _) = connect(&mut state, &cfg);
    let (conn_id, begin) = relay(&mut state, handle.unwrap().data, "echo");
    let init = match begin {
        RelayStart::OpenStream(m) => m,
        other => panic!("{other:?}"),
    };
    assert_eq!(step(&cfg, &mut c, ClientEvent::StreamOpened), ClientAction::ServeStream);
    assert_eq!(
        handle_quic_data(&cfg.proxies, &payload(&init)),
        DataStream::Bridge { conn_id, local_addr: "127.0.0.1:22".into() }
    );
}

#[test]
fn what_follows_the_first_frame_is_kept() {
    let mut bytes = Vec::new();
    send_msg(&mut bytes, &Message::ConnInit { conn_id: 1, proxy_name: "echo".into() }).unwrap();
    bytes.extend_from_slice(b"hello rust-frp");
    let (first, used) = read_frame(&bytes).unwrap().unwrap();
    assert_eq!(first_frame(&first, DataTransport::Tcp), FirstFrame::Data { conn_id: 1 });
    assert_eq!(&bytes[used..], b"hello rust-frp");
}
