//! What is shown to people.
use crate::client::config::Transport;
use crate::client::session::Failure;
use crate::clock::time_stamp;
use crate::describe::{describe, describe_reply};
use crate::frame::FrameError;
use crate::msg::{Message, ParseError, ProxyType};
use crate::server::tls::CertError;
use crate::text::{decimal, lemma_before_first, quoted, signed_text, text_before};
use vstd::prelude::*;

verus! {

/// An integer is written in decimal, with a minus sign in front if it is negative.
pub proof fn law_signed_text(n: i128, text: String)
    requires
        call_ensures(signed_text, (n,), text),
    ensures
        n >= 0 ==> text@ == decimal(n as nat),
        n < 0 ==> text@ == "-"@ + decimal((-n) as nat),
{
}

/// What precedes the first separator is all characters before it, or all there are if
/// there is none.
pub proof fn law_text_before(s: &str, stop: char, part: String)
    requires
        call_ensures(text_before, (s, stop), part),
    ensures
        !part@.contains(stop),
        part@ == s@ || (part@.len() < s@.len() && part@ == s@.take(part@.len() as int) && s@[
            part@.len() as int
        ] == stop),
{
    lemma_before_first(s@, stop);
    if part@.len() == s@.len() {
        assert(s@.take(s@.len() as int) =~= s@);
    }
}

/// An error in a payload is described with what was found.
pub proof fn law_parse_error_text(e: &ParseError, text: String)
    requires
        call_ensures(ParseError::text, (e,), text),
    ensures
        match e {
            ParseError::Json(reason) => text@ == "invalid json: "@ + reason@,
            ParseError::MissingType => text@ == "missing `type` field"@,
            ParseError::UnknownType(tag) => text@ == "invalid json: unknown variant `"@ + tag@
                + "`, expected one of `hello`, `hello_ack`, `register_proxy`, `register_proxy_ack`, `new_connection`, `conn_init`, `ping`, `pong`, `error`"@,
            ParseError::MissingField(field) => text@ == "invalid json: missing field `"@ + field@
                + "`"@,
            ParseError::InvalidField { field: _, reason } => text@ == "invalid json: "@ + reason@,
        },
{
}

/// An error in a frame is described by its kind; that of a payload comes with its own
/// description.
pub proof fn law_frame_error_text(e: &FrameError, text: String)
    requires
        call_ensures(FrameError::text, (e,), text),
    ensures
        match e {
            FrameError::Oversized => text@ == "io: frame exceeds 64 KiB"@,
            FrameError::TooBig => text@ == "io: frame size too big"@,
            FrameError::Truncated => text@ == "io: bytes remaining on stream"@,
            FrameError::Parse(inner) => forall|t: String| #[trigger]
                call_ensures(ParseError::text, (inner,), t) ==> text@ == "parse: "@ + t@,
        },
{
}

/// A failure is described with what the server said, or with what went wrong.
pub proof fn law_failure_text(f: &Failure, text: String)
    requires
        call_ensures(Failure::text, (f,), text),
    ensures
        match f {
            Failure::Incompatible { version } => text@ == "server protocol version "@ + version@
                + ", client "@ + "1.0"@ + ": incompatible"@,
            Failure::Rejected { code, message } => text@ == "server rejected handshake: "@ + code@
                + ": "@ + message@,
            Failure::HandshakeTimeout => text@ == "handshake timeout"@,
            Failure::UnexpectedReply(m) => forall|t: String| #[trigger]
                call_ensures(describe_reply, (m,), t) ==> text@ == "unexpected handshake reply: "@
                    + t@,
            Failure::RegisterRefused { name, error: Some(reason) } => text@ == "proxy `"@ + name@
                + "` register failed: "@ + reason@,
            Failure::RegisterRefused { name, error: None } => text@ == "proxy `"@ + name@
                + "` register failed: "@,
            Failure::RegisterTimeout => text@ == "register ack timeout"@,
            Failure::UnexpectedRegisterReply(m) => forall|t: String| #[trigger]
                call_ensures(describe_reply, (m,), t) ==> text@ == "unexpected register reply: "@
                    + t@,
            Failure::ControlClosed(Transport::Tcp) => text@ == "control connection closed"@,
            Failure::ControlClosed(Transport::Quic) => text@ == "control stream closed"@,
            Failure::ConnectionLost => text@ == "quic connection lost"@,
            Failure::Read(e) => forall|t: String| #[trigger]
                call_ensures(FrameError::text, (e,), t) ==> text@ == t@,
            Failure::Io(reason) => text@ == reason@,
            Failure::QuicNeedsTls => text@
                == "transport = \"quic\" 需要 TLS（QUIC 强制加密），请移除 tls.enabled = false"@,
            Failure::InvalidFingerprint => text@
                == "server_fingerprint 格式无效：应为 SHA256（64 个 hex 字符）"@,
        },
{
    if let Failure::RegisterRefused { name, error: None } = f {
        let start = "proxy `"@ + name@ + "` register failed: "@;
        assert(start + Seq::<char>::empty() =~= start);
    }
}

/// Why the server has no certificate is described with what was configured or found.
pub proof fn law_cert_error_text(e: &CertError, text: String)
    requires
        call_ensures(CertError::text, (e,), text),
    ensures
        match e {
            CertError::Unpaired => text@
                == "tls.cert 与 tls.key 必须同时配置或同时省略"@,
            CertError::Missing { cert, key } => text@
                == "指定了证书路径但文件不存在: "@ + cert@ + " / "@ + key@,
            CertError::BadKey(reason) => text@ == "解析私钥失败: "@ + reason@,
            CertError::Config(reason) => text@ == "TLS 配置失败: "@ + reason@,
            CertError::Generation(_) => text@ == "生成自签证书失败"@,
        },
{
}

/// An optional text as it is shown.
pub open spec fn shown_option(t: Option<String>) -> Seq<char> {
    if t is Some {
        "Some("@ + quoted(t->0@) + ")"@
    } else {
        "None"@
    }
}

/// An integer as it is shown.
pub open spec fn shown_integer(n: int) -> Seq<char> {
    if n >= 0 {
        decimal(n as nat)
    } else {
        "-"@ + decimal((-n) as nat)
    }
}

/// A message is shown as its type, with each of its fields by name and value.
pub proof fn law_describe(m: &Message, text: String)
    requires
        call_ensures(describe, (m,), text),
    ensures
        match m {
            Message::Hello { version, token, hostname } => text@ == "Hello { version: "@ + quoted(
                version@,
            ) + ", token: "@ + quoted(token@) + ", hostname: "@ + shown_option(*hostname) + " }"@,
            Message::HelloAck { version, session_id } => text@ == "HelloAck { version: "@ + quoted(
                version@,
            ) + ", session_id: "@ + quoted(session_id@) + " }"@,
            Message::RegisterProxy { name, proxy_type, local_addr, remote_port, vhost } => text@
                == "RegisterProxy { name: "@ + quoted(name@) + ", proxy_type: "@ + (
            match proxy_type {
                ProxyType::Tcp => "Tcp"@,
                ProxyType::Udp => "Udp"@,
                ProxyType::Http => "Http"@,
                ProxyType::Https => "Https"@,
            }) + ", local_addr: "@ + quoted(local_addr@) + ", remote_port: "@ + (match remote_port {
                Some(port) => "Some("@ + decimal(*port as nat) + ")"@,
                None => "None"@,
            }) + ", vhost: "@ + shown_option(*vhost) + " }"@,
            Message::RegisterProxyAck { name, ok, error } => text@ == "RegisterProxyAck { name: "@
                + quoted(name@) + ", ok: "@ + (if *ok {
                "true"@
            } else {
                "false"@
            }) + ", error: "@ + shown_option(*error) + " }"@,
            Message::NewConnection { conn_id, proxy_name } => text@ == "NewConnection { conn_id: "@
                + decimal(*conn_id as nat) + ", proxy_name: "@ + quoted(proxy_name@) + " }"@,
            Message::ConnInit { conn_id, proxy_name } => text@ == "ConnInit { conn_id: "@ + decimal(
                *conn_id as nat,
            ) + ", proxy_name: "@ + quoted(proxy_name@) + " }"@,
            Message::Ping { ts } => text@ == "Ping { ts: "@ + shown_integer(*ts as int) + " }"@,
            Message::Pong { ts } => text@ == "Pong { ts: "@ + shown_integer(*ts as int) + " }"@,
            Message::Error { code, message } => text@ == "Error { code: "@ + quoted(code@)
                + ", message: "@ + quoted(message@) + " }"@,
        },
{
}

/// A reply that may not have come is shown as the message inside it, or as none.
pub proof fn law_describe_reply(m: &Option<Message>, text: String)
    requires
        call_ensures(describe_reply, (m,), text),
    ensures
        match m {
            Some(inner) => forall|t: String| #[trigger]
                call_ensures(describe, (inner,), t) ==> text@ == "Some("@ + t@ + ")"@,
            None => text@ == "None"@,
        },
{
}

/// A time stamp is the milliseconds since the epoch as long as they fit; of more their
/// low 64 bits count, and a clock before the epoch shows zero.
pub proof fn law_time_stamp(elapsed: Option<u128>, ts: i64)
    requires
        call_ensures(time_stamp, (elapsed,), ts),
    ensures
        match elapsed {
            Some(ms) => (ms <= i64::MAX ==> ts == ms) && (ts - ms) % 0x1_0000_0000_0000_0000 == 0,
            None => ts == 0,
        },
{
    if let Some(ms) = elapsed {
        let low = (ms % 0x1_0000_0000_0000_0000) as u64;
        assert((ms as i64) as u64 == low) by (bit_vector)
            requires
                low == (ms % 0x1_0000_0000_0000_0000) as u64,
        ;
        assert(ts >= 0 ==> (ts as u64) as i128 == ts as i128) by (bit_vector);
        assert(ts < 0 ==> (ts as u64) as i128 == (ts as i128) + 0x1_0000_0000_0000_0000)
            by (bit_vector);
    }
}

} // verus!
