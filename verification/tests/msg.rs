use rfp::describe::{describe, describe_reply};
use rfp::json::Json;
use rfp::msg::{version_compatible, Message, ParseError, ProxyType, VERSION};

fn invalid(field: &str, reason: &str) -> Result<Message, ParseError> {
    Err(ParseError::InvalidField { field: field.into(), reason: reason.into() })
}

#[test]
fn roundtrip() {
    let msgs = vec![
        Message::Hello {
            version: VERSION.into(),
            token: "secret".into(),
            hostname: Some("box".into()),
        },
        Message::RegisterProxy {
            name: "ssh".into(),
            proxy_type: ProxyType::Tcp,
            local_addr: "127.0.0.1:22".into(),
            remote_port: Some(6022),
            vhost: None,
        },
        Message::NewConnection { conn_id: 42, proxy_name: "ssh".into() },
        Message::Error { code: "auth_failed".into(), message: "no".into() },
    ];
    for m in msgs {
        assert_eq!(Message::parse(&m.encode()).unwrap(), m);
    }
}

#[test]
fn unknown_type_is_error() {
    let buf = br#"{"type":"quantum_tunnel","x":1}"#;
    assert!(Message::parse(buf).is_err());
}

#[test]
fn missing_type_is_error() {
    assert!(Message::parse(br#"{"ts":1}"#).is_err());
}

#[test]
fn unknown_field_ignored() {
    let buf = br#"{"type":"ping","ts":123,"extra":true}"#;
    assert_eq!(Message::parse(buf).unwrap(), Message::Ping { ts: 123 });
}

#[test]
fn version_check() {
    assert!(version_compatible("1.0"));
    assert!(version_compatible("1.9"));
    assert!(!version_compatible("2.0"));
    assert!(!version_compatible("garbage"));
}

#[test]
fn version_is_judged_by_what_precedes_the_first_dot() {
    assert!(version_compatible("1"));
    assert!(version_compatible("1.x.y"));
    assert!(!version_compatible("10.0"));
    assert!(!version_compatible(""));
    assert!(!version_compatible(" 1.0"));
}

#[test]
fn every_kind_of_message_survives_the_wire() {
    let msgs = vec![
        Message::Hello { version: "1.0".into(), token: "t\"\\\n令牌".into(), hostname: None },
        Message::HelloAck { version: "1.0".into(), session_id: "0123".into() },
        Message::RegisterProxy {
            name: "web".into(),
            proxy_type: ProxyType::Https,
            local_addr: "".into(),
            remote_port: None,
            vhost: Some("*.a.com".into()),
        },
        Message::RegisterProxyAck { name: "web".into(), ok: true, error: None },
        Message::RegisterProxyAck { name: "web".into(), ok: false, error: Some("no".into()) },
        Message::NewConnection { conn_id: u64::MAX, proxy_name: "".into() },
        Message::ConnInit { conn_id: 0, proxy_name: "ssh".into() },
        Message::Ping { ts: i64::MIN },
        Message::Pong { ts: i64::MAX },
        Message::Error { code: "".into(), message: "\u{0}".into() },
    ];
    for m in msgs {
        assert_eq!(Message::parse(&m.encode()).unwrap(), m);
    }
}

#[test]
fn encoding_is_json_with_the_type_first() {
    assert_eq!(Message::Ping { ts: 1 }.encode(), br#"{"type":"ping","ts":1}"#.to_vec());
    let hello = Message::Hello { version: "1.0".into(), token: "secret".into(), hostname: None };
    assert_eq!(
        hello.encode(),
        br#"{"type":"hello","version":"1.0","token":"secret"}"#.to_vec()
    );
    let register = Message::RegisterProxy {
        name: "ssh".into(),
        proxy_type: ProxyType::Tcp,
        local_addr: "127.0.0.1:22".into(),
        remote_port: Some(6022),
        vhost: None,
    };
    let expected =
        br#"{"type":"register_proxy","name":"ssh","proxy_type":"tcp","local_addr":"127.0.0.1:22","remote_port":6022}"#;
    assert_eq!(register.encode(), expected.to_vec());
}

#[test]
fn fields_of_a_message_describe_it() {
    let m = Message::ConnInit { conn_id: 7, proxy_name: "ssh".into() };
    let fields = m.to_fields();
    assert_eq!(
        fields,
        vec![
            ("type".to_string(), Json::Text("conn_init".into())),
            ("conn_id".to_string(), Json::Integer(7)),
            ("proxy_name".to_string(), Json::Text("ssh".into())),
        ]
    );
    assert_eq!(Message::from_fields(&fields, &None).unwrap(), m);
}

#[test]
fn null_and_absence_mean_no_value() {
    let absent = br#"{"type":"hello","version":"1.0","token":""}"#;
    let null = br#"{"type":"hello","version":"1.0","token":"","hostname":null}"#;
    let expected = Message::Hello { version: "1.0".into(), token: "".into(), hostname: None };
    assert_eq!(Message::parse(absent).unwrap(), expected);
    assert_eq!(Message::parse(null).unwrap(), expected);
}

#[test]
fn proxy_types_have_two_forms() {
    for (value, expected) in [
        (r#""tcp""#, ProxyType::Tcp),
        (r#""udp""#, ProxyType::Udp),
        (r#""http""#, ProxyType::Http),
        (r#""https""#, ProxyType::Https),
        (r#"{"tcp":null}"#, ProxyType::Tcp),
        (r#"{"http":{}}"#, ProxyType::Http),
    ] {
        let text = format!(
            r#"{{"type":"register_proxy","name":"a","proxy_type":{value},"local_addr":"b"}}"#
        );
        match Message::parse(text.as_bytes()).unwrap() {
            Message::RegisterProxy { proxy_type, .. } => assert_eq!(proxy_type, expected),
            other => panic!("{other:?}"),
        }
    }
    assert_eq!(ProxyType::Https.name(), "https");
}

#[test]
fn numbers_must_fit() {
    assert!(Message::parse(br#"{"type":"ping","ts":9223372036854775807}"#).is_ok());
    assert_eq!(
        Message::parse(br#"{"type":"ping","ts":9223372036854775808}"#),
        invalid("ts", "invalid value: integer `9223372036854775808`, expected i64")
    );
    assert_eq!(
        Message::parse(br#"{"type":"ping","ts":1.5}"#),
        invalid("ts", "invalid type: floating point `1.5`, expected i64")
    );
    let port = br#"{"type":"register_proxy","name":"a","proxy_type":"tcp","local_addr":"b","remote_port":65536}"#;
    assert_eq!(
        Message::parse(port),
        invalid("remote_port", "invalid value: integer `65536`, expected u16")
    );
    let id = br#"{"type":"conn_init","conn_id":18446744073709551615,"proxy_name":"a"}"#;
    assert_eq!(
        Message::parse(id).unwrap(),
        Message::ConnInit { conn_id: u64::MAX, proxy_name: "a".into() }
    );
    let negative = br#"{"type":"conn_init","conn_id":-1,"proxy_name":"a"}"#;
    assert_eq!(
        Message::parse(negative),
        invalid("conn_id", "invalid value: integer `-1`, expected u64")
    );
}

#[test]
fn errors_tell_what_is_wrong() {
    assert!(matches!(Message::parse(b"{"), Err(ParseError::Json(_))));
    assert!(Message::parse(b"{").unwrap_err().text().starts_with("invalid json: "));
    assert_eq!(Message::parse(b"[1]"), Err(ParseError::MissingType));
    assert_eq!(Message::parse(br#"{"type":1}"#), Err(ParseError::MissingType));
    assert_eq!(ParseError::MissingType.text(), "missing `type` field");
    assert_eq!(
        Message::parse(br#"{"type":"warp"}"#),
        Err(ParseError::UnknownType("warp".into()))
    );
    assert!(ParseError::UnknownType("warp".into())
        .text()
        .starts_with("invalid json: unknown variant `warp`, expected one of `hello`"));
    assert_eq!(
        Message::parse(br#"{"type":"pong"}"#).unwrap_err().text(),
        "invalid json: missing field `ts`"
    );
    assert_eq!(
        Message::parse(br#"{"type":"pong","ts":"x"}"#).unwrap_err().text(),
        "invalid json: invalid type: string \"x\", expected i64"
    );
}

#[test]
fn wrong_values_are_described_as_by_the_json_library() {
    let values = [
        "null", "true", "false", "0", "-7", "1.0", "-0.5", "1e300", "1e-9", "18446744073709551616",
        "-0", r#""a\"\n""#, r#""令""#, "[1,2]", "[]", r#"{"a":1}"#, "{}",
    ];
    for value in values {
        let reason = |wanted: &str| match wanted {
            "text" => serde_json::from_value::<String>(value.parse().unwrap()).err(),
            "bool" => serde_json::from_value::<bool>(value.parse().unwrap()).err(),
            "i64" => serde_json::from_value::<i64>(value.parse().unwrap()).err(),
            "u64" => serde_json::from_value::<u64>(value.parse().unwrap()).err(),
            "port" => serde_json::from_value::<Option<u16>>(value.parse().unwrap()).err(),
            _ => serde_json::from_value::<Option<String>>(value.parse().unwrap()).err(),
        };
        for (wanted, before, after) in [
            ("text", r#"{"type":"error","code":"c","message":"#, "}"),
            ("bool", r#"{"type":"register_proxy_ack","name":"n","ok":"#, "}"),
            ("i64", r#"{"type":"ping","ts":"#, "}"),
            ("u64", r#"{"type":"conn_init","conn_id":"#, r#","proxy_name":"p"}"#),
            (
                "port",
                r#"{"type":"register_proxy","remote_port":"#,
                r#","name":"n","proxy_type":"tcp","local_addr":"l"}"#,
            ),
            ("optional text", r#"{"type":"hello","hostname":"#, r#","version":"1.0","token":""}"#),
        ] {
            let parsed = Message::parse(format!("{before}{value}{after}").as_bytes());
            let expected = reason(wanted).map(|e| format!("invalid json: {e}"));
            assert_eq!(parsed.err().map(|e| e.text()), expected, "{wanted} {value}");
        }
    }
}

#[test]
fn wrong_proxy_types_are_described() {
    for (value, reason) in [
        (r#""TCP""#, "unknown variant `TCP`, expected one of `tcp`, `udp`, `http`, `https`"),
        (r#"{"ssh":null}"#, "unknown variant `ssh`, expected one of `tcp`, `udp`, `http`, `https`"),
        (r#"{"tcp":5}"#, "invalid type: integer `5`, expected unit"),
        (r#"{"tcp":{"a":1}}"#, "invalid type: map, expected unit"),
        (r#"{"udp":[]}"#, "invalid type: sequence, expected unit"),
        ("{}", "invalid value: map, expected map with a single key"),
        (r#"{"tcp":null,"udp":null}"#, "invalid value: map, expected map with a single key"),
        ("5", "invalid type: integer `5`, expected string or map"),
        ("2.50", "invalid type: floating point `2.5`, expected string or map"),
        ("null", "invalid type: null, expected string or map"),
        ("true", "invalid type: boolean `true`, expected string or map"),
        ("[]", "invalid type: sequence, expected string or map"),
    ] {
        let text = format!(
            r#"{{"type":"register_proxy","name":"a","proxy_type":{value},"local_addr":"b"}}"#
        );
        let parsed = Message::parse(text.as_bytes());
        assert_eq!(parsed, invalid("proxy_type", reason), "{value}");
        assert_eq!(parsed.unwrap_err().text(), format!("invalid json: {reason}"));
    }
    // Messages of other types do not have the field.
    assert!(Message::parse(br#"{"type":"ping","ts":1,"proxy_type":{"a":1}}"#).is_ok());
}

#[test]
fn of_several_faults_one_is_named() {
    // A wrong value counts before a missing field, wherever it stands.
    assert_eq!(
        Message::parse(br#"{"type":"error","message":5}"#),
        invalid("message", "invalid type: integer `5`, expected a string")
    );
    // Of two wrong values the first in the object counts.
    assert_eq!(
        Message::parse(br#"{"message":5,"code":6,"type":"error"}"#),
        invalid("message", "invalid type: integer `5`, expected a string")
    );
    // Of two missing fields the first declared counts.
    assert_eq!(
        Message::parse(br#"{"type":"error"}"#),
        Err(ParseError::MissingField("code".into()))
    );
    // Fields of other types are not looked at.
    assert_eq!(
        Message::parse(br#"{"type":"ping","ok":5,"ts":1}"#).unwrap(),
        Message::Ping { ts: 1 }
    );
}

#[test]
fn messages_are_described_with_their_fields() {
    let msgs = vec![
        Message::Hello { version: "1.0".into(), token: "a\"\n令".into(), hostname: None },
        Message::Hello { version: "1".into(), token: "".into(), hostname: Some("h".into()) },
        Message::HelloAck { version: "1.0".into(), session_id: "s".into() },
        Message::RegisterProxy {
            name: "n".into(),
            proxy_type: ProxyType::Udp,
            local_addr: "l".into(),
            remote_port: Some(65535),
            vhost: Some("v".into()),
        },
        Message::RegisterProxy {
            name: "n".into(),
            proxy_type: ProxyType::Https,
            local_addr: "l".into(),
            remote_port: None,
            vhost: None,
        },
        Message::RegisterProxyAck { name: "n".into(), ok: true, error: None },
        Message::RegisterProxyAck { name: "n".into(), ok: false, error: Some("e".into()) },
        Message::NewConnection { conn_id: u64::MAX, proxy_name: "p".into() },
        Message::ConnInit { conn_id: 0, proxy_name: "p".into() },
        Message::Ping { ts: i64::MIN },
        Message::Pong { ts: 10 },
        Message::Error { code: "c".into(), message: "\u{7f}\u{200b}".into() },
    ];
    for m in msgs {
        assert_eq!(describe(&m), format!("{m:?}"));
        let reply = Some(m);
        assert_eq!(describe_reply(&reply), format!("{reply:?}"));
    }
    assert_eq!(describe_reply(&None), "None");
}
