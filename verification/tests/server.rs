use rfp::frame::FrameError;
use rfp::msg::{Message, ParseError, ProxyType};
use rfp::server::auth::{
    authorize_port, authorize_vhost, parse_port, parse_port_range, tokens_match, vhost_matches,
    AuthPolicy, Identity, PortRange, User,
};
use rfp::server::config::{
    default_bind_addr, QuicConfig, ServerConfig, TlsConfig, UserConfig,
};
use rfp::server::session::{
    classify_first, first_frame, handle_control, handle_data_conn, handle_message, judge_hello,
    open_session, register_proxy, relay, relay_announced, relay_timed_out, Admission,
    ControlAction, FirstFrame, RelayStart, SessionEvent,
};
use rfp::server::state::{DataTransport, RegisteredProxy, Registry, ServerState, SessionHandle};

fn user(name: &str, ports: &[&str], vhosts: &[&str]) -> UserConfig {
    UserConfig {
        name: name.into(),
        token: format!("{name}-token"),
        ports: ports.iter().map(|p| p.to_string()).collect(),
        vhosts: vhosts.iter().map(|v| v.to_string()).collect(),
    }
}

fn config(token: &str, users: Vec<UserConfig>) -> ServerConfig {
    ServerConfig {
        bind_addr: "127.0.0.1".into(),
        bind_port: 7000,
        token: token.into(),
        users,
        tls: TlsConfig::default(),
        quic: QuicConfig::default(),
    }
}

fn state(cfg: &ServerConfig) -> ServerState<&'static str> {
    ServerState::new(cfg.auth_policy().unwrap(), cfg.bind_addr.clone())
}

fn session(state: &ServerState<&'static str>, token: &str, id: &str) -> SessionHandle {
    match judge_hello(state, "1.0", token, DataTransport::Tcp, id.into()) {
        Admission::Accepted { session, .. } => session,
        Admission::Refused(m) => panic!("{m:?}"),
    }
}

fn register(name: &str, port: Option<u16>) -> Message {
    Message::RegisterProxy {
        name: name.into(),
        proxy_type: ProxyType::Tcp,
        local_addr: "127.0.0.1:22".into(),
        remote_port: port,
        vhost: None,
    }
}

fn refusal(action: ControlAction) -> String {
    match action {
        ControlAction::Send(Message::RegisterProxyAck { ok: false, error: Some(e), .. }) => e,
        other => panic!("{other:?}"),
    }
}

#[test]
fn ports_and_ranges() {
    assert_eq!(parse_port("65533"), Some(65533));
    assert_eq!(parse_port("007"), Some(7));
    assert_eq!(parse_port("65536"), None);
    assert_eq!(parse_port(""), None);
    assert_eq!(parse_port("+1"), None);
    assert_eq!(parse_port_range("6000-6100"), Some(PortRange { low: 6000, high: 6100 }));
    assert_eq!(parse_port_range("65533"), Some(PortRange { low: 65533, high: 65533 }));
    assert_eq!(parse_port_range("a-b"), None);
    assert_eq!(parse_port_range("1-2-3"), None);
}

#[test]
fn wildcards_cover_exactly_one_label() {
    assert!(vhost_matches("*.a.com", "x.a.com"));
    assert!(!vhost_matches("*.a.com", "a.com"));
    assert!(!vhost_matches("*.a.com", "evil-a.com"));
    assert!(!vhost_matches("*.a.com", "a.b.a.com"));
    assert!(vhost_matches("bob.example.com", "bob.example.com"));
    assert!(!vhost_matches("bob.example.com", "alice.example.com"));
}

#[test]
fn tokens_match_exactly() {
    assert!(tokens_match("secret", "secret"));
    assert!(!tokens_match("secret", "secreT"));
    assert!(!tokens_match("secret", "secret2"));
    assert!(!tokens_match("", "x"));
    assert!(tokens_match("令牌", "令牌"));
}

#[test]
fn policies_follow_the_configuration() {
    assert!(matches!(config("", vec![]).auth_policy().unwrap(), AuthPolicy::Open));
    assert!(matches!(
        config("secret", vec![]).auth_policy().unwrap(),
        AuthPolicy::Legacy(t) if t == "secret"
    ));
    let users = vec![user("alice", &["6000-6100", "6200"], &[]), user("bob", &[], &[])];
    match config("secret", users).auth_policy().unwrap() {
        AuthPolicy::Users(list) => {
            assert_eq!(list.len(), 2);
            assert_eq!(list[0].ports[1], PortRange { low: 6200, high: 6200 });
        }
        other => panic!("{other:?}"),
    }
    let e = config("", vec![user("alice", &["6000-"], &[])]).auth_policy().unwrap_err();
    assert_eq!(e.text(), "用户 alice 的端口区间无效: 6000-");
}

#[test]
fn defaults_of_the_server() {
    assert_eq!(default_bind_addr(), "0.0.0.0");
    assert!(TlsConfig::default().enabled);
    assert!(TlsConfig::default().cert.is_none());
    assert!(!QuicConfig::default().enabled);
    let mut cfg = config("", vec![]);
    assert_eq!(cfg.quic_port(), 7000);
    assert_eq!(cfg.quic_addr(), "127.0.0.1:7000");
    cfg.quic.bind_port = Some(443);
    assert_eq!(cfg.quic_port(), 443);
    assert_eq!(cfg.quic_addr(), "127.0.0.1:443");
}

#[test]
fn a_token_is_an_identity() {
    let policy = config("x", vec![user("alice", &[], &[]), user("bob", &[], &[])])
        .auth_policy()
        .unwrap();
    match policy.authenticate("bob-token") {
        Some(Identity::User(u)) => assert_eq!(u.name, "bob"),
        other => panic!("{other:?}"),
    }
    assert!(policy.authenticate("x").is_none());
    assert!(matches!(AuthPolicy::Open.authenticate("anything"), Some(Identity::Open)));
    let legacy = AuthPolicy::Legacy("secret".into());
    assert!(matches!(legacy.authenticate("secret"), Some(Identity::Legacy)));
    assert!(legacy.authenticate("wrong").is_none());
}

#[test]
fn users_are_bound_to_their_grants() {
    let alice = Identity::User(User {
        name: "alice".into(),
        token: "t".into(),
        ports: vec![PortRange { low: 6000, high: 6100 }],
        vhosts: vec!["*.alice.dev".into()],
    });
    assert_eq!(authorize_port(&alice, 6000), Ok(()));
    assert_eq!(authorize_port(&alice, 6100), Ok(()));
    assert_eq!(authorize_port(&alice, 6101), Err("端口 6101 不在授权范围内".into()));
    assert_eq!(authorize_vhost(&alice, "x.alice.dev"), Ok(()));
    assert_eq!(
        authorize_vhost(&alice, "alice.dev"),
        Err("vhost alice.dev 不在授权范围内".into())
    );
}

#[test]
fn others_are_kept_out_of_the_ephemeral_ports() {
    for id in [Identity::Open, Identity::Legacy] {
        assert_eq!(authorize_port(&id, 32767), Ok(()));
        assert_eq!(authorize_port(&id, 61000), Ok(()));
        assert!(authorize_port(&id, 32768).unwrap_err().contains("32768-60999"));
        assert!(authorize_port(&id, 60999).is_err());
        assert_eq!(authorize_vhost(&id, "any.host"), Ok(()));
    }
}

#[test]
fn first_frames() {
    let hello = Message::Hello { version: "1.0".into(), token: "t".into(), hostname: None };
    for data in [DataTransport::Tcp, DataTransport::Quic] {
        assert_eq!(
            first_frame(&hello.encode(), data),
            FirstFrame::Control { version: "1.0".into(), token: "t".into(), hostname: None }
        );
    }
    let init = Message::ConnInit { conn_id: 9, proxy_name: "ssh".into() };
    assert_eq!(first_frame(&init.encode(), DataTransport::Tcp), FirstFrame::Data { conn_id: 9 });
    let refuse = |text: &str| {
        FirstFrame::Refuse(Message::Error {
            code: "unexpected_message".into(),
            message: text.into(),
        })
    };
    assert_eq!(
        first_frame(&init.encode(), DataTransport::Quic),
        refuse("first frame must be hello")
    );
    assert_eq!(
        first_frame(&Message::Ping { ts: 1 }.encode(), DataTransport::Tcp),
        refuse("first frame must be hello or conn_init")
    );
    assert_eq!(
        classify_first(Err(ParseError::MissingType), DataTransport::Tcp),
        FirstFrame::Refuse(Message::Error {
            code: "parse".into(),
            message: "missing `type` field".into(),
        })
    );
    assert_eq!(first_frame(b"garbage", DataTransport::Quic), FirstFrame::Drop);
}

#[test]
fn admission_judges_the_token_before_the_version() {
    let st = state(&config("secret", vec![]));
    let refused = |version: &str, token: &str| {
        match judge_hello(&st, version, token, DataTransport::Tcp, "id".into()) {
            Admission::Refused(m) => m,
            Admission::Accepted { .. } => panic!("accepted"),
        }
    };
    let failed = Message::Error {
        code: "auth_failed".into(),
        message: "authentication failed".into(),
    };
    assert_eq!(refused("1.0", "wrong"), failed);
    assert_eq!(refused("2.0", "wrong"), failed);
    assert_eq!(
        refused("2.0", "secret"),
        Message::Error { code: "version_mismatch".into(), message: "server 1.0, client 2.0".into() }
    );
    match judge_hello(&st, "1.7", "secret", DataTransport::Quic, "id".into()) {
        Admission::Accepted { session, reply } => {
            assert_eq!(session.id, "id");
            assert_eq!(session.data, DataTransport::Quic);
            assert!(session.registered.is_empty());
            assert_eq!(
                reply,
                Message::HelloAck { version: "1.0".into(), session_id: "id".into() }
            );
        }
        Admission::Refused(m) => panic!("{m:?}"),
    }
}

#[test]
fn session_ids_are_hexadecimal_and_new() {
    let st = state(&config("", vec![]));
    let id = || match open_session(&st, "1.0", "", DataTransport::Tcp) {
        Admission::Accepted { session, .. } => session.id,
        Admission::Refused(m) => panic!("{m:?}"),
    };
    let (a, b) = (id(), id());
    assert_eq!(a.len(), 32);
    assert!(a.chars().all(|c| c.is_ascii_digit() || ('a'..='f').contains(&c)));
    assert_ne!(a, b);
}

#[test]
fn registrations_are_checked_in_order() {
    let mut st = state(&config("", vec![]));
    let mut s = session(&st, "", "one");
    let udp = Message::RegisterProxy {
        name: "a".into(),
        proxy_type: ProxyType::Udp,
        local_addr: "".into(),
        remote_port: None,
        vhost: None,
    };
    assert_eq!(refusal(handle_message(&st, &s, udp)), "M1 仅支持 tcp 代理");
    assert_eq!(refusal(handle_message(&st, &s, register("a", None))), "tcp 代理需要 remote_port");
    assert_eq!(refusal(handle_message(&st, &s, register("a", Some(0)))), "remote_port 不能为 0");
    assert!(refusal(handle_message(&st, &s, register("a", Some(40000)))).contains("临时端口"));
    assert_eq!(
        handle_message(&st, &s, register("a", Some(6022))),
        ControlAction::Listen { name: "a".into(), port: 6022 }
    );
    let ack = register_proxy(&mut st, &mut s, "a".into(), 6022, Ok(6022));
    assert_eq!(ack, Message::RegisterProxyAck { name: "a".into(), ok: true, error: None });
    assert_eq!(s.registered, vec![RegisteredProxy { name: "a".into(), port: 6022 }]);

    let other = session(&st, "", "two");
    assert_eq!(refusal(handle_message(&st, &other, register("a", Some(6023)))), "同名代理已存在");
    assert_eq!(
        refusal(handle_message(&st, &other, register("b", Some(6022)))),
        "端口 6022 已被占用"
    );
}

#[test]
fn a_port_that_cannot_be_bound_is_reported() {
    let mut st = state(&config("", vec![]));
    let mut s = session(&st, "", "one");
    let ack = register_proxy(&mut st, &mut s, "a".into(), 80, Err("denied".into()));
    assert_eq!(
        ack,
        Message::RegisterProxyAck {
            name: "a".into(),
            ok: false,
            error: Some("监听 80 失败: denied".into()),
        }
    );
    assert!(s.registered.is_empty());
    assert!(matches!(
        handle_message(&st, &s, register("a", Some(80))),
        ControlAction::Listen { .. }
    ));
}

#[test]
fn vhosts_of_users_are_checked() {
    let st = state(&config("", vec![user("alice", &["6000"], &["*.alice.dev"])]));
    let s = session(&st, "alice-token", "one");
    let with = |host: &str| Message::RegisterProxy {
        name: "a".into(),
        proxy_type: ProxyType::Tcp,
        local_addr: "".into(),
        remote_port: Some(6000),
        vhost: Some(host.into()),
    };
    assert!(matches!(
        handle_message(&st, &s, with("x.alice.dev")),
        ControlAction::Listen { port: 6000, .. }
    ));
    assert!(refusal(handle_message(&st, &s, with("bob.dev"))).contains("授权范围"));
}

#[test]
fn the_end_of_a_session_frees_what_it_holds_and_nothing_else() {
    let mut st = state(&config("", vec![]));
    let mut one = session(&st, "", "one");
    let mut two = session(&st, "", "two");
    register_proxy(&mut st, &mut one, "a".into(), 6001, Ok(6001));
    register_proxy(&mut st, &mut two, "b".into(), 6002, Ok(6002));
    // A later session took over the name and the port of the first.
    register_proxy(&mut st, &mut one, "c".into(), 6003, Ok(6003));
    register_proxy(&mut st, &mut two, "c".into(), 6003, Ok(6003));

    let ended = st.cleanup_session(&mut one);
    assert_eq!(
        ended,
        vec![
            RegisteredProxy { name: "a".into(), port: 6001 },
            RegisteredProxy { name: "c".into(), port: 6003 },
        ]
    );
    assert!(one.registered.is_empty());
    assert!(matches!(
        handle_message(&st, &one, register("a", Some(6001))),
        ControlAction::Listen { .. }
    ));
    assert_eq!(refusal(handle_message(&st, &one, register("b", Some(6001)))), "同名代理已存在");
    assert_eq!(refusal(handle_message(&st, &one, register("c", Some(6001)))), "同名代理已存在");
    assert_eq!(
        refusal(handle_message(&st, &one, register("d", Some(6003)))),
        "端口 6003 已被占用"
    );
}

#[test]
fn a_granted_registration_displaces_nobody() {
    let mut st = state(&config("", vec![]));
    let mut one = session(&st, "", "one");
    let mut two = session(&st, "", "two");
    register_proxy(&mut st, &mut one, "a".into(), 6001, Ok(6001));
    match handle_message(&st, &two, register("b", Some(6002))) {
        ControlAction::Listen { port: 6002, .. } => {}
        other => panic!("{other:?}"),
    }
    register_proxy(&mut st, &mut two, "b".into(), 6002, Ok(6002));
    st.cleanup_session(&mut two);
    assert_eq!(refusal(handle_message(&st, &two, register("a", Some(6002)))), "同名代理已存在");
    assert_eq!(
        refusal(handle_message(&st, &two, register("b", Some(6001)))),
        "端口 6001 已被占用"
    );
}

#[test]
fn a_refused_first_frame_is_answered_with_what_is_wrong() {
    for (payload, reason) in [
        (
            r#"{"type":"hello","version":1,"token":"t"}"#,
            "invalid json: invalid type: integer `1`, expected a string",
        ),
        (
            r#"{"type":"conn_init","conn_id":-1,"proxy_name":"a"}"#,
            "invalid json: invalid value: integer `-1`, expected u64",
        ),
        (r#"{"type":"hello","version":"1.0"}"#, "invalid json: missing field `token`"),
        ("[]", "missing `type` field"),
    ] {
        match first_frame(payload.as_bytes(), DataTransport::Tcp) {
            FirstFrame::Refuse(Message::Error { code: _, message }) => assert_eq!(message, reason),
            other => panic!("{other:?}"),
        }
    }
}

#[test]
fn the_registry_knows_the_owners() {
    let mut r = Registry::new();
    assert_eq!(r.name_owner("a"), None);
    r.insert("a", 1, &"one".to_string());
    r.insert("a", 2, &"two".to_string());
    assert_eq!(r.name_owner("a"), Some("two".into()));
    assert_eq!(r.port_owner(1), Some("one".into()));
    r.release("a", 2, &"one".to_string());
    assert_eq!(r.port_owner(2), Some("two".into()));
    r.release("a", 2, &"two".to_string());
    assert_eq!(r.name_owner("a"), None);
    assert_eq!(r.port_owner(2), None);
    assert_eq!(r.port_owner(1), Some("one".into()));
}

#[test]
fn control_sessions_answer() {
    let st = state(&config("", vec![]));
    let s = session(&st, "", "one");
    let answer = |m: Message| handle_control(&st, &s, SessionEvent::Received(m));
    assert_eq!(answer(Message::Ping { ts: 77 }), ControlAction::Send(Message::Pong { ts: 77 }));
    assert_eq!(answer(Message::Pong { ts: 77 }), ControlAction::Wait);
    assert_eq!(
        answer(Message::Error { code: "a".into(), message: "b".into() }),
        ControlAction::Wait
    );
    assert_eq!(
        answer(Message::NewConnection { conn_id: 1, proxy_name: "a".into() }),
        ControlAction::Inform(Message::Error {
            code: "unexpected_message".into(),
            message: "unexpected message type".into(),
        })
    );
    let unknown = FrameError::Parse(ParseError::UnknownType("warp".into()));
    assert_eq!(
        handle_control(&st, &s, SessionEvent::ReadFailed(unknown)),
        ControlAction::Inform(Message::Error {
            code: "unknown_message".into(),
            message: "unknown message type".into(),
        })
    );
    for event in [
        SessionEvent::ReadFailed(FrameError::Oversized),
        SessionEvent::ReadFailed(FrameError::TooBig),
        SessionEvent::ReadFailed(FrameError::Truncated),
        SessionEvent::ReadFailed(FrameError::Parse(ParseError::MissingType)),
        SessionEvent::Closed,
        SessionEvent::CommandsClosed,
    ] {
        assert_eq!(handle_control(&st, &s, event), ControlAction::Close);
    }
    let m = Message::NewConnection { conn_id: 3, proxy_name: "ssh".into() };
    assert_eq!(
        handle_control(&st, &s, SessionEvent::Command(m.clone())),
        ControlAction::Send(m)
    );
}

#[test]
fn tunnels_reach_the_user_connection_with_their_number() {
    let mut st = state(&config("", vec![]));
    let (first, start) = relay(&mut st, DataTransport::Tcp, "ssh");
    assert_eq!(first, 1);
    assert_eq!(
        start,
        RelayStart::Notify(Message::NewConnection { conn_id: 1, proxy_name: "ssh".into() })
    );
    let (second, _) = relay(&mut st, DataTransport::Tcp, "ssh");
    let (third, start) = relay(&mut st, DataTransport::Quic, "web");
    assert_eq!((second, third), (2, 3));
    assert_eq!(
        start,
        RelayStart::OpenStream(Message::ConnInit { conn_id: 3, proxy_name: "web".into() })
    );

    assert!(relay_announced(&mut st, first, true, "first user"));
    assert!(relay_announced(&mut st, second, true, "second user"));
    assert!(!relay_announced(&mut st, 4, false, "nobody"));
    assert_eq!(handle_data_conn(&mut st, first), Some("first user"));
    assert_eq!(handle_data_conn(&mut st, first), None);
    assert_eq!(handle_data_conn(&mut st, 4), None);
    relay_timed_out(&mut st, second);
    assert_eq!(handle_data_conn(&mut st, second), None);
}
