//! Messages as they appear in reports: the type and its fields.
use crate::msg::{opt_text, Message, MessageView, ProxyType};
use crate::text::{decimal, decimal_text, joined, quote, quoted, signed, signed_text};
use vstd::prelude::*;

verus! {

/// An optional text.
pub open spec fn opt_quoted(t: Option<Seq<char>>) -> Seq<char> {
    match t {
        Some(s) => "Some("@ + quoted(s) + ")"@,
        None => "None"@,
    }
}

fn opt_quote(t: &Option<String>) -> (text: String)
    ensures
        text@ == opt_quoted(opt_text(*t)),
{
    match t {
        Some(s) => joined(joined("Some(", quote(s.as_str()).as_str()).as_str(), ")"),
        None => "None".to_owned(),
    }
}

/// An optional port.
pub open spec fn opt_number(n: Option<u16>) -> Seq<char> {
    match n {
        Some(n) => "Some("@ + decimal(n as nat) + ")"@,
        None => "None"@,
    }
}

fn opt_number_text(n: Option<u16>) -> (text: String)
    ensures
        text@ == opt_number(n),
{
    match n {
        Some(n) => joined(joined("Some(", decimal_text(n as u128).as_str()).as_str(), ")"),
        None => "None".to_owned(),
    }
}

/// A truth value.
pub open spec fn truth(b: bool) -> Seq<char> {
    if b {
        "true"@
    } else {
        "false"@
    }
}

fn truth_text(b: bool) -> (text: String)
    ensures
        text@ == truth(b),
{
    if b {
        "true".to_owned()
    } else {
        "false".to_owned()
    }
}

/// A proxy type.
pub open spec fn type_label(t: ProxyType) -> Seq<char> {
    match t {
        ProxyType::Tcp => "Tcp"@,
        ProxyType::Udp => "Udp"@,
        ProxyType::Http => "Http"@,
        ProxyType::Https => "Https"@,
    }
}

fn label(t: ProxyType) -> (text: String)
    ensures
        text@ == type_label(t),
{
    match t {
        ProxyType::Tcp => "Tcp".to_owned(),
        ProxyType::Udp => "Udp".to_owned(),
        ProxyType::Http => "Http".to_owned(),
        ProxyType::Https => "Https".to_owned(),
    }
}

/// A message: the name of its type and its fields with their names.
pub open spec fn described(m: MessageView) -> Seq<char> {
    match m {
        MessageView::Hello { version, token, hostname } => "Hello { version: "@ + quoted(version)
            + ", token: "@ + quoted(token)
            + ", hostname: "@ + opt_quoted(hostname) + " }"@,
        MessageView::HelloAck { version, session_id } => "HelloAck { version: "@ + quoted(version)
            + ", session_id: "@ + quoted(session_id) + " }"@,
        MessageView::RegisterProxy { name, proxy_type, local_addr, remote_port, vhost } => "RegisterProxy { name: "@ + quoted(name)
            + ", proxy_type: "@ + type_label(proxy_type)
            + ", local_addr: "@ + quoted(local_addr)
            + ", remote_port: "@ + opt_number(remote_port)
            + ", vhost: "@ + opt_quoted(vhost) + " }"@,
        MessageView::RegisterProxyAck { name, ok, error } => "RegisterProxyAck { name: "@ + quoted(name)
            + ", ok: "@ + truth(ok)
            + ", error: "@ + opt_quoted(error) + " }"@,
        MessageView::NewConnection { conn_id, proxy_name } => "NewConnection { conn_id: "@ + decimal(conn_id as nat)
            + ", proxy_name: "@ + quoted(proxy_name) + " }"@,
        MessageView::ConnInit { conn_id, proxy_name } => "ConnInit { conn_id: "@ + decimal(conn_id as nat)
            + ", proxy_name: "@ + quoted(proxy_name) + " }"@,
        MessageView::Ping { ts } => "Ping { ts: "@ + signed(ts as int) + " }"@,
        MessageView::Pong { ts } => "Pong { ts: "@ + signed(ts as int) + " }"@,
        MessageView::Error { code, message } => "Error { code: "@ + quoted(code)
            + ", message: "@ + quoted(message) + " }"@,
    }
}

/// Describes a message.
pub fn describe(m: &Message) -> (text: String)
    ensures
        text@ == described(m@),
{
    let mut text: String;
    match m {
        Message::Hello { version, token, hostname } => {
            text = "Hello { version: ".to_owned();
            text.append(quote(version.as_str()).as_str());
            text.append(", token: ");
            text.append(quote(token.as_str()).as_str());
            text.append(", hostname: ");
            text.append(opt_quote(hostname).as_str());
        },
        Message::HelloAck { version, session_id } => {
            text = "HelloAck { version: ".to_owned();
            text.append(quote(version.as_str()).as_str());
            text.append(", session_id: ");
            text.append(quote(session_id.as_str()).as_str());
        },
        Message::RegisterProxy { name, proxy_type, local_addr, remote_port, vhost } => {
            text = "RegisterProxy { name: ".to_owned();
            text.append(quote(name.as_str()).as_str());
            text.append(", proxy_type: ");
            text.append(label(*proxy_type).as_str());
            text.append(", local_addr: ");
            text.append(quote(local_addr.as_str()).as_str());
            text.append(", remote_port: ");
            text.append(opt_number_text(*remote_port).as_str());
            text.append(", vhost: ");
            text.append(opt_quote(vhost).as_str());
        },
        Message::RegisterProxyAck { name, ok, error } => {
            text = "RegisterProxyAck { name: ".to_owned();
            text.append(quote(name.as_str()).as_str());
            text.append(", ok: ");
            text.append(truth_text(*ok).as_str());
            text.append(", error: ");
            text.append(opt_quote(error).as_str());
        },
        Message::NewConnection { conn_id, proxy_name } => {
            text = "NewConnection { conn_id: ".to_owned();
            text.append(decimal_text(*conn_id as u128).as_str());
            text.append(", proxy_name: ");
            text.append(quote(proxy_name.as_str()).as_str());
        },
        Message::ConnInit { conn_id, proxy_name } => {
            text = "ConnInit { conn_id: ".to_owned();
            text.append(decimal_text(*conn_id as u128).as_str());
            text.append(", proxy_name: ");
            text.append(quote(proxy_name.as_str()).as_str());
        },
        Message::Ping { ts } => {
            text = "Ping { ts: ".to_owned();
            text.append(signed_text(*ts as i128).as_str());
        },
        Message::Pong { ts } => {
            text = "Pong { ts: ".to_owned();
            text.append(signed_text(*ts as i128).as_str());
        },
        Message::Error { code, message } => {
            text = "Error { code: ".to_owned();
            text.append(quote(code.as_str()).as_str());
            text.append(", message: ");
            text.append(quote(message.as_str()).as_str());
        },
    }
    text.append(" }");
    text
}

/// A message that may not have come.
pub open spec fn described_reply(m: Option<MessageView>) -> Seq<char> {
    match m {
        Some(m) => "Some("@ + described(m) + ")"@,
        None => "None"@,
    }
}

/// Describes a message that may not have come.
pub fn describe_reply(m: &Option<Message>) -> (text: String)
    ensures
        text@ == (match m {
            Some(m) => described_reply(Some(m@)),
            None => described_reply(None),
        }),
{
    match m {
        Some(m) => joined(joined("Some(", describe(m).as_str()).as_str(), ")"),
        None => "None".to_owned(),
    }
}

} // verus!
