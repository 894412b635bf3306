//! The control messages of the protocol and their JSON form.
//!
//! A message is a JSON object whose `type` field names the kind of message.
//! Fields that the kind does not have are ignored. A `type` that is not known,
//! a missing field and a field of the wrong form are errors; what follows from
//! an error is for the receiver to decide.
use crate::fault::{
    wrong_number, wrong_number_text, wrong_type, wrong_type_text, wrong_value, wrong_value_text,
};
use crate::json::{
    distinct_names, fields_view, find_field, json_member, json_read, json_written, lookup,
    member_view, object_of, read_member, read_object, writable, write_object, Fields, Json,
    JsonView,
};
use crate::text::{before_first, joined, lemma_before_first, lemma_before_first_is, same_text, text_before};
use vstd::prelude::*;

verus! {

/// Protocol version, major and minor. Peers with another major number are refused.
pub const VERSION: &'static str = "1.0";

/// The kind of service a proxy exposes. Only `Tcp` can be registered so far.
#[derive(Debug, Clone, Copy, PartialEq, Eq, Structural)]
pub enum ProxyType {
    Tcp,
    Udp,
    Http,
    Https,
}

/// A message on the control channel, or the first frame of a data connection.
#[derive(Debug, Clone, PartialEq)]
pub enum Message {
    /// Client to server: authentication.
    Hello { version: String, token: String, hostname: Option<String> },
    /// Server to client: authentication succeeded.
    HelloAck { version: String, session_id: String },
    /// Client to server: register a proxy.
    RegisterProxy {
        name: String,
        proxy_type: ProxyType,
        local_addr: String,
        remote_port: Option<u16>,
        vhost: Option<String>,
    },
    /// Server to client: outcome of a registration.
    RegisterProxyAck { name: String, ok: bool, error: Option<String> },
    /// Server to client: a user connected, open a data connection.
    NewConnection { conn_id: u64, proxy_name: String },
    /// First frame of a data connection: which user connection it serves.
    ConnInit { conn_id: u64, proxy_name: String },
    /// Latency probe.
    Ping { ts: i64 },
    /// Answer to a probe, with the probe's `ts`.
    Pong { ts: i64 },
    /// An error report.
    Error { code: String, message: String },
}

/// The mathematical content of a [`Message`].
pub enum MessageView {
    Hello { version: Seq<char>, token: Seq<char>, hostname: Option<Seq<char>> },
    HelloAck { version: Seq<char>, session_id: Seq<char> },
    RegisterProxy {
        name: Seq<char>,
        proxy_type: ProxyType,
        local_addr: Seq<char>,
        remote_port: Option<u16>,
        vhost: Option<Seq<char>>,
    },
    RegisterProxyAck { name: Seq<char>, ok: bool, error: Option<Seq<char>> },
    NewConnection { conn_id: u64, proxy_name: Seq<char> },
    ConnInit { conn_id: u64, proxy_name: Seq<char> },
    Ping { ts: i64 },
    Pong { ts: i64 },
    Error { code: Seq<char>, message: Seq<char> },
}

/// The content of an optional text.
pub open spec fn opt_text(t: Option<String>) -> Option<Seq<char>> {
    match t {
        Some(s) => Some(s@),
        None => None,
    }
}

impl View for Message {
    type V = MessageView;

    open spec fn view(&self) -> MessageView {
        match self {
            Message::Hello { version, token, hostname } => MessageView::Hello {
                version: version@,
                token: token@,
                hostname: opt_text(*hostname),
            },
            Message::HelloAck { version, session_id } => MessageView::HelloAck {
                version: version@,
                session_id: session_id@,
            },
            Message::RegisterProxy { name, proxy_type, local_addr, remote_port, vhost } =>
                MessageView::RegisterProxy {
                name: name@,
                proxy_type: *proxy_type,
                local_addr: local_addr@,
                remote_port: *remote_port,
                vhost: opt_text(*vhost),
            },
            Message::RegisterProxyAck { name, ok, error } => MessageView::RegisterProxyAck {
                name: name@,
                ok: *ok,
                error: opt_text(*error),
            },
            Message::NewConnection { conn_id, proxy_name } => MessageView::NewConnection {
                conn_id: *conn_id,
                proxy_name: proxy_name@,
            },
            Message::ConnInit { conn_id, proxy_name } => MessageView::ConnInit {
                conn_id: *conn_id,
                proxy_name: proxy_name@,
            },
            Message::Ping { ts } => MessageView::Ping { ts: *ts },
            Message::Pong { ts } => MessageView::Pong { ts: *ts },
            Message::Error { code, message } => MessageView::Error {
                code: code@,
                message: message@,
            },
        }
    }
}

/// Why a frame is not a message.
#[derive(Debug, Clone, PartialEq)]
pub enum ParseError {
    /// The payload is not JSON; the description comes from the JSON reader.
    Json(String),
    /// The payload is not an object with a `type` field that holds a string.
    MissingType,
    /// The `type` names no known message.
    UnknownType(String),
    /// A field that the message needs is absent.
    MissingField(String),
    /// A field holds a value of the wrong kind or out of range.
    InvalidField { field: String, reason: String },
}

/// The mathematical content of a [`ParseError`].
pub enum ParseErrorView {
    Json(Seq<char>),
    MissingType,
    UnknownType(Seq<char>),
    MissingField(Seq<char>),
    InvalidField { field: Seq<char>, reason: Seq<char> },
}

impl View for ParseError {
    type V = ParseErrorView;

    open spec fn view(&self) -> ParseErrorView {
        match self {
            ParseError::Json(e) => ParseErrorView::Json(e@),
            ParseError::MissingType => ParseErrorView::MissingType,
            ParseError::UnknownType(t) => ParseErrorView::UnknownType(t@),
            ParseError::MissingField(f) => ParseErrorView::MissingField(f@),
            ParseError::InvalidField { field, reason } => ParseErrorView::InvalidField {
                field: field@,
                reason: reason@,
            },
        }
    }
}

/// Whether a result has the content `expected`.
pub open spec fn agrees<T: View>(r: Result<T, ParseError>, expected: Result<T::V, ParseErrorView>) -> bool {
    match r {
        Ok(value) => expected == Ok::<T::V, ParseErrorView>(value@),
        Err(e) => expected == Err::<T::V, ParseErrorView>(e@),
    }
}

/// As [`agrees`], for an optional text.
pub open spec fn agrees_opt(
    r: Result<Option<String>, ParseError>,
    expected: Result<Option<Seq<char>>, ParseErrorView>,
) -> bool {
    match r {
        Ok(value) => expected == Ok::<Option<Seq<char>>, ParseErrorView>(opt_text(value)),
        Err(e) => expected == Err::<Option<Seq<char>>, ParseErrorView>(e@),
    }
}

/// As [`agrees`], for a value that is its own content.
pub open spec fn agrees_plain<T>(r: Result<T, ParseError>, expected: Result<T, ParseErrorView>) -> bool {
    match r {
        Ok(value) => expected == Ok::<T, ParseErrorView>(value),
        Err(e) => expected == Err::<T, ParseErrorView>(e@),
    }
}

// Fields.

/// A field with a value that it cannot have.
pub open spec fn invalid_field(key: Seq<char>, reason: Seq<char>) -> ParseErrorView {
    ParseErrorView::InvalidField { field: key, reason }
}

/// A text field.
pub open spec fn text_of(f: Fields, key: Seq<char>) -> Result<Seq<char>, ParseErrorView> {
    match lookup(f, key) {
        None => Err(ParseErrorView::MissingField(key)),
        Some(JsonView::Text(s)) => Ok(s),
        Some(v) => Err(invalid_field(key, wrong_type(v, "a string"@))),
    }
}

/// A text field that may be absent or null.
pub open spec fn opt_text_of(f: Fields, key: Seq<char>) -> Result<Option<Seq<char>>, ParseErrorView> {
    match lookup(f, key) {
        None => Ok(None),
        Some(JsonView::Null) => Ok(None),
        Some(JsonView::Text(s)) => Ok(Some(s)),
        Some(v) => Err(invalid_field(key, wrong_type(v, "a string"@))),
    }
}

/// A boolean field.
pub open spec fn bool_of(f: Fields, key: Seq<char>) -> Result<bool, ParseErrorView> {
    match lookup(f, key) {
        None => Err(ParseErrorView::MissingField(key)),
        Some(JsonView::Bool(b)) => Ok(b),
        Some(v) => Err(invalid_field(key, wrong_type(v, "a boolean"@))),
    }
}

/// A field that holds a connection number.
pub open spec fn u64_of(f: Fields, key: Seq<char>) -> Result<u64, ParseErrorView> {
    match lookup(f, key) {
        None => Err(ParseErrorView::MissingField(key)),
        Some(JsonView::Integer(n)) if 0 <= n <= u64::MAX => Ok(n as u64),
        Some(v) => Err(invalid_field(key, wrong_number(v, "u64"@))),
    }
}

/// A field that holds a time stamp.
pub open spec fn i64_of(f: Fields, key: Seq<char>) -> Result<i64, ParseErrorView> {
    match lookup(f, key) {
        None => Err(ParseErrorView::MissingField(key)),
        Some(JsonView::Integer(n)) if i64::MIN <= n <= i64::MAX => Ok(n as i64),
        Some(v) => Err(invalid_field(key, wrong_number(v, "i64"@))),
    }
}

/// A field that holds a port and may be absent or null.
pub open spec fn opt_port_of(f: Fields, key: Seq<char>) -> Result<Option<u16>, ParseErrorView> {
    match lookup(f, key) {
        None => Ok(None),
        Some(JsonView::Null) => Ok(None),
        Some(JsonView::Integer(n)) if 0 <= n <= u16::MAX => Ok(Some(n as u16)),
        Some(v) => Err(invalid_field(key, wrong_number(v, "u16"@))),
    }
}

/// The name of a proxy type.
pub open spec fn proxy_type_name(t: ProxyType) -> Seq<char> {
    match t {
        ProxyType::Tcp => "tcp"@,
        ProxyType::Udp => "udp"@,
        ProxyType::Http => "http"@,
        ProxyType::Https => "https"@,
    }
}

/// Whether a value denotes the proxy type: its name, or an object whose only
/// field has that name and holds nothing. `member` is the content of the object.
pub open spec fn denotes(value: JsonView, member: Option<Fields>, t: ProxyType) -> bool {
    match value {
        JsonView::Text(s) => s == proxy_type_name(t),
        JsonView::Object(_) => member matches Some(m) && m.len() == 1 && m[0].0 == proxy_type_name(
            t,
        ) && (m[0].1 is Null || m[0].1 == JsonView::Object(0)),
        _ => false,
    }
}

/// The proxy type that a value denotes.
pub open spec fn denoted_type(value: JsonView, member: Option<Fields>) -> Option<ProxyType> {
    if denotes(value, member, ProxyType::Tcp) {
        Some(ProxyType::Tcp)
    } else if denotes(value, member, ProxyType::Udp) {
        Some(ProxyType::Udp)
    } else if denotes(value, member, ProxyType::Http) {
        Some(ProxyType::Http)
    } else if denotes(value, member, ProxyType::Https) {
        Some(ProxyType::Https)
    } else {
        None
    }
}

/// Whether a text is the name of a proxy type.
pub open spec fn names_type(s: Seq<char>) -> bool {
    s == "tcp"@ || s == "udp"@ || s == "http"@ || s == "https"@
}

/// A name that is that of no proxy type.
pub open spec fn unknown_proxy_type(s: Seq<char>) -> Seq<char> {
    "unknown variant `"@ + s + "`, expected one of `tcp`, `udp`, `http`, `https`"@
}

/// What is wrong with a value that denotes no proxy type.
pub open spec fn wrong_proxy_type(value: JsonView, member: Option<Fields>) -> Seq<char> {
    match value {
        JsonView::Text(s) => unknown_proxy_type(s),
        JsonView::Object(_) => match member {
            Some(m) if m.len() == 1 => if names_type(m[0].0) {
                wrong_type(m[0].1, "unit"@)
            } else {
                unknown_proxy_type(m[0].0)
            },
            _ => wrong_value(value, "map with a single key"@),
        },
        _ => wrong_type(value, "string or map"@),
    }
}

/// A field that holds a proxy type.
pub open spec fn proxy_type_of(f: Fields, member: Option<Fields>, key: Seq<char>) -> Result<
    ProxyType,
    ParseErrorView,
> {
    match lookup(f, key) {
        None => Err(ParseErrorView::MissingField(key)),
        Some(v) => match denoted_type(v, member) {
            Some(t) => Ok(t),
            None => Err(invalid_field(key, wrong_proxy_type(v, member))),
        },
    }
}

fn missing<T>(key: &str) -> (r: Result<T, ParseError>)
    ensures
        r matches Err(e) && e@ == ParseErrorView::MissingField(key@),
{
    Err(ParseError::MissingField(key.to_owned()))
}

fn invalid<T>(key: &str, reason: String) -> (r: Result<T, ParseError>)
    ensures
        r matches Err(e) && e@ == invalid_field(key@, reason@),
{
    Err(ParseError::InvalidField { field: key.to_owned(), reason })
}

fn text_field(fields: &Vec<(String, Json)>, key: &str) -> (r: Result<String, ParseError>)
    ensures
        agrees(r, text_of(fields_view(fields@), key@)),
{
    match find_field(fields, key) {
        None => missing(key),
        Some(Json::Text(s)) => Ok(s.clone()),
        Some(v) => invalid(key, wrong_type_text(v, "a string")),
    }
}

fn opt_text_field(fields: &Vec<(String, Json)>, key: &str) -> (r: Result<Option<String>, ParseError>)
    ensures
        agrees_opt(r, opt_text_of(fields_view(fields@), key@)),
{
    match find_field(fields, key) {
        None => Ok(None),
        Some(Json::Null) => Ok(None),
        Some(Json::Text(s)) => Ok(Some(s.clone())),
        Some(v) => invalid(key, wrong_type_text(v, "a string")),
    }
}

fn bool_field(fields: &Vec<(String, Json)>, key: &str) -> (r: Result<bool, ParseError>)
    ensures
        agrees_plain(r, bool_of(fields_view(fields@), key@)),
{
    match find_field(fields, key) {
        None => missing(key),
        Some(Json::Bool(b)) => Ok(*b),
        Some(v) => invalid(key, wrong_type_text(v, "a boolean")),
    }
}

fn u64_field(fields: &Vec<(String, Json)>, key: &str) -> (r: Result<u64, ParseError>)
    ensures
        agrees_plain(r, u64_of(fields_view(fields@), key@)),
{
    match find_field(fields, key) {
        None => missing(key),
        Some(v) => {
            if let Json::Integer(n) = v {
                if 0 <= *n && *n <= u64::MAX as i128 {
                    return Ok(*n as u64);
                }
            }
            invalid(key, wrong_number_text(v, "u64"))
        },
    }
}

fn i64_field(fields: &Vec<(String, Json)>, key: &str) -> (r: Result<i64, ParseError>)
    ensures
        agrees_plain(r, i64_of(fields_view(fields@), key@)),
{
    match find_field(fields, key) {
        None => missing(key),
        Some(v) => {
            if let Json::Integer(n) = v {
                if i64::MIN as i128 <= *n && *n <= i64::MAX as i128 {
                    return Ok(*n as i64);
                }
            }
            invalid(key, wrong_number_text(v, "i64"))
        },
    }
}

fn opt_port_field(fields: &Vec<(String, Json)>, key: &str) -> (r: Result<Option<u16>, ParseError>)
    ensures
        agrees_plain(r, opt_port_of(fields_view(fields@), key@)),
{
    match find_field(fields, key) {
        None => Ok(None),
        Some(Json::Null) => Ok(None),
        Some(v) => {
            if let Json::Integer(n) = v {
                if 0 <= *n && *n <= u16::MAX as i128 {
                    return Ok(Some(*n as u16));
                }
            }
            invalid(key, wrong_number_text(v, "u16"))
        },
    }
}

impl ProxyType {
    /// The name of the type, as messages carry it.
    pub fn name(self) -> (name: String)
        ensures
            name@ == proxy_type_name(self),
    {
        match self {
            ProxyType::Tcp => "tcp".to_owned(),
            ProxyType::Udp => "udp".to_owned(),
            ProxyType::Http => "http".to_owned(),
            ProxyType::Https => "https".to_owned(),
        }
    }

    fn is_denoted_by(self, value: &Json, member: &Option<Vec<(String, Json)>>) -> (yes: bool)
        ensures
            yes == denotes(value@, member_view(*member), self),
    {
        let name = self.name();
        match value {
            Json::Text(s) => *s == name,
            Json::Object(_) => match member {
                Some(m) => {
                    if m.len() != 1 {
                        return false;
                    }
                    let (key, inner) = &m[0];
                    assert(fields_view(m@)[0] == (key@, inner@));
                    *key == name && match inner {
                        Json::Null => true,
                        Json::Object(n) => *n == 0,
                        _ => false,
                    }
                },
                None => false,
            },
            _ => false,
        }
    }

    /// The proxy type that a value denotes.
    fn denoted_by(value: &Json, member: &Option<Vec<(String, Json)>>) -> (t: Option<ProxyType>)
        ensures
            t == denoted_type(value@, member_view(*member)),
    {
        if ProxyType::Tcp.is_denoted_by(value, member) {
            Some(ProxyType::Tcp)
        } else if ProxyType::Udp.is_denoted_by(value, member) {
            Some(ProxyType::Udp)
        } else if ProxyType::Http.is_denoted_by(value, member) {
            Some(ProxyType::Http)
        } else if ProxyType::Https.is_denoted_by(value, member) {
            Some(ProxyType::Https)
        } else {
            None
        }
    }
}

fn unknown_proxy_type_text(s: &str) -> (text: String)
    ensures
        text@ == unknown_proxy_type(s@),
{
    let text = joined("unknown variant `", s);
    joined(text.as_str(), "`, expected one of `tcp`, `udp`, `http`, `https`")
}

fn wrong_proxy_type_text(value: &Json, member: &Option<Vec<(String, Json)>>) -> (text: String)
    ensures
        text@ == wrong_proxy_type(value@, member_view(*member)),
{
    match value {
        Json::Text(s) => unknown_proxy_type_text(s.as_str()),
        Json::Object(_) => {
            if let Some(m) = member {
                if m.len() == 1 {
                    let (key, inner) = &m[0];
                    assert(fields_view(m@)[0] == (key@, inner@));
                    let key = key.as_str();
                    if same_text(key, "tcp") || same_text(key, "udp") || same_text(key, "http")
                        || same_text(key, "https") {
                        return wrong_type_text(inner, "unit");
                    }
                    return unknown_proxy_type_text(key);
                }
            }
            wrong_value_text(value, "map with a single key")
        },
        _ => wrong_type_text(value, "string or map"),
    }
}

fn proxy_type_field(
    fields: &Vec<(String, Json)>,
    member: &Option<Vec<(String, Json)>>,
    key: &str,
) -> (r: Result<ProxyType, ParseError>)
    ensures
        agrees_plain(r, proxy_type_of(fields_view(fields@), member_view(*member), key@)),
{
    match find_field(fields, key) {
        None => missing(key),
        Some(v) => match ProxyType::denoted_by(v, member) {
            Some(t) => Ok(t),
            None => invalid(key, wrong_proxy_type_text(v, member)),
        },
    }
}

// Messages from their fields.

/// A `hello` message from its fields.
pub open spec fn hello_of(f: Fields) -> Result<MessageView, ParseErrorView> {
    match text_of(f, "version"@) {
        Err(e) => Err(e),
        Ok(version) => match text_of(f, "token"@) {
            Err(e) => Err(e),
            Ok(token) => match opt_text_of(f, "hostname"@) {
                Err(e) => Err(e),
                Ok(hostname) => Ok(MessageView::Hello { version, token, hostname }),
            },
        },
    }
}

fn decode_hello(fields: &Vec<(String, Json)>) -> (r: Result<Message, ParseError>)
    ensures
        agrees(r, hello_of(fields_view(fields@))),
{
    let version = match text_field(fields, "version") {
        Ok(v) => v,
        Err(e) => return Err(e),
    };
    let token = match text_field(fields, "token") {
        Ok(v) => v,
        Err(e) => return Err(e),
    };
    let hostname = match opt_text_field(fields, "hostname") {
        Ok(v) => v,
        Err(e) => return Err(e),
    };
    Ok(Message::Hello { version, token, hostname })
}

/// A `hello_ack` message from its fields.
pub open spec fn hello_ack_of(f: Fields) -> Result<MessageView, ParseErrorView> {
    match text_of(f, "version"@) {
        Err(e) => Err(e),
        Ok(version) => match text_of(f, "session_id"@) {
            Err(e) => Err(e),
            Ok(session_id) => Ok(MessageView::HelloAck { version, session_id }),
        },
    }
}

fn decode_hello_ack(fields: &Vec<(String, Json)>) -> (r: Result<Message, ParseError>)
    ensures
        agrees(r, hello_ack_of(fields_view(fields@))),
{
    let version = match text_field(fields, "version") {
        Ok(v) => v,
        Err(e) => return Err(e),
    };
    let session_id = match text_field(fields, "session_id") {
        Ok(v) => v,
        Err(e) => return Err(e),
    };
    Ok(Message::HelloAck { version, session_id })
}

/// A `register_proxy` message from its fields.
pub open spec fn register_proxy_of(f: Fields, member: Option<Fields>) -> Result<
    MessageView,
    ParseErrorView,
> {
    match text_of(f, "name"@) {
        Err(e) => Err(e),
        Ok(name) => match proxy_type_of(f, member, "proxy_type"@) {
            Err(e) => Err(e),
            Ok(proxy_type) => match text_of(f, "local_addr"@) {
                Err(e) => Err(e),
                Ok(local_addr) => match opt_port_of(f, "remote_port"@) {
                    Err(e) => Err(e),
                    Ok(remote_port) => match opt_text_of(f, "vhost"@) {
                        Err(e) => Err(e),
                        Ok(vhost) => Ok(MessageView::RegisterProxy { name, proxy_type, local_addr, remote_port, vhost }),
                    },
                },
            },
        },
    }
}

fn decode_register_proxy(
    fields: &Vec<(String, Json)>,
    member: &Option<Vec<(String, Json)>>,
) -> (r: Result<Message, ParseError>)
    ensures
        agrees(r, register_proxy_of(fields_view(fields@), member_view(*member))),
{
    let name = match text_field(fields, "name") {
        Ok(v) => v,
        Err(e) => return Err(e),
    };
    let proxy_type = match proxy_type_field(fields, member, "proxy_type") {
        Ok(v) => v,
        Err(e) => return Err(e),
    };
    let local_addr = match text_field(fields, "local_addr") {
        Ok(v) => v,
        Err(e) => return Err(e),
    };
    let remote_port = match opt_port_field(fields, "remote_port") {
        Ok(v) => v,
        Err(e) => return Err(e),
    };
    let vhost = match opt_text_field(fields, "vhost") {
        Ok(v) => v,
        Err(e) => return Err(e),
    };
    Ok(Message::RegisterProxy { name, proxy_type, local_addr, remote_port, vhost })
}

/// A `register_proxy_ack` message from its fields.
pub open spec fn register_proxy_ack_of(f: Fields) -> Result<MessageView, ParseErrorView> {
    match text_of(f, "name"@) {
        Err(e) => Err(e),
        Ok(name) => match bool_of(f, "ok"@) {
            Err(e) => Err(e),
            Ok(ok) => match opt_text_of(f, "error"@) {
                Err(e) => Err(e),
                Ok(error) => Ok(MessageView::RegisterProxyAck { name, ok, error }),
            },
        },
    }
}

fn decode_register_proxy_ack(fields: &Vec<(String, Json)>) -> (r: Result<Message, ParseError>)
    ensures
        agrees(r, register_proxy_ack_of(fields_view(fields@))),
{
    let name = match text_field(fields, "name") {
        Ok(v) => v,
        Err(e) => return Err(e),
    };
    let ok = match bool_field(fields, "ok") {
        Ok(v) => v,
        Err(e) => return Err(e),
    };
    let error = match opt_text_field(fields, "error") {
        Ok(v) => v,
        Err(e) => return Err(e),
    };
    Ok(Message::RegisterProxyAck { name, ok, error })
}

/// A `new_connection` message from its fields.
pub open spec fn new_connection_of(f: Fields) -> Result<MessageView, ParseErrorView> {
    match u64_of(f, "conn_id"@) {
        Err(e) => Err(e),
        Ok(conn_id) => match text_of(f, "proxy_name"@) {
            Err(e) => Err(e),
            Ok(proxy_name) => Ok(MessageView::NewConnection { conn_id, proxy_name }),
        },
    }
}

fn decode_new_connection(fields: &Vec<(String, Json)>) -> (r: Result<Message, ParseError>)
    ensures
        agrees(r, new_connection_of(fields_view(fields@))),
{
    let conn_id = match u64_field(fields, "conn_id") {
        Ok(v) => v,
        Err(e) => return Err(e),
    };
    let proxy_name = match text_field(fields, "proxy_name") {
        Ok(v) => v,
        Err(e) => return Err(e),
    };
    Ok(Message::NewConnection { conn_id, proxy_name })
}

/// A `conn_init` message from its fields.
pub open spec fn conn_init_of(f: Fields) -> Result<MessageView, ParseErrorView> {
    match u64_of(f, "conn_id"@) {
        Err(e) => Err(e),
        Ok(conn_id) => match text_of(f, "proxy_name"@) {
            Err(e) => Err(e),
            Ok(proxy_name) => Ok(MessageView::ConnInit { conn_id, proxy_name }),
        },
    }
}

fn decode_conn_init(fields: &Vec<(String, Json)>) -> (r: Result<Message, ParseError>)
    ensures
        agrees(r, conn_init_of(fields_view(fields@))),
{
    let conn_id = match u64_field(fields, "conn_id") {
        Ok(v) => v,
        Err(e) => return Err(e),
    };
    let proxy_name = match text_field(fields, "proxy_name") {
        Ok(v) => v,
        Err(e) => return Err(e),
    };
    Ok(Message::ConnInit { conn_id, proxy_name })
}

/// A `ping` message from its fields.
pub open spec fn ping_of(f: Fields) -> Result<MessageView, ParseErrorView> {
    match i64_of(f, "ts"@) {
        Err(e) => Err(e),
        Ok(ts) => Ok(MessageView::Ping { ts }),
    }
}

fn decode_ping(fields: &Vec<(String, Json)>) -> (r: Result<Message, ParseError>)
    ensures
        agrees(r, ping_of(fields_view(fields@))),
{
    let ts = match i64_field(fields, "ts") {
        Ok(v) => v,
        Err(e) => return Err(e),
    };
    Ok(Message::Ping { ts })
}

/// A `pong` message from its fields.
pub open spec fn pong_of(f: Fields) -> Result<MessageView, ParseErrorView> {
    match i64_of(f, "ts"@) {
        Err(e) => Err(e),
        Ok(ts) => Ok(MessageView::Pong { ts }),
    }
}

fn decode_pong(fields: &Vec<(String, Json)>) -> (r: Result<Message, ParseError>)
    ensures
        agrees(r, pong_of(fields_view(fields@))),
{
    let ts = match i64_field(fields, "ts") {
        Ok(v) => v,
        Err(e) => return Err(e),
    };
    Ok(Message::Pong { ts })
}

/// A `error` message from its fields.
pub open spec fn error_of(f: Fields) -> Result<MessageView, ParseErrorView> {
    match text_of(f, "code"@) {
        Err(e) => Err(e),
        Ok(code) => match text_of(f, "message"@) {
            Err(e) => Err(e),
            Ok(message) => Ok(MessageView::Error { code, message }),
        },
    }
}

fn decode_error(fields: &Vec<(String, Json)>) -> (r: Result<Message, ParseError>)
    ensures
        agrees(r, error_of(fields_view(fields@))),
{
    let code = match text_field(fields, "code") {
        Ok(v) => v,
        Err(e) => return Err(e),
    };
    let message = match text_field(fields, "message") {
        Ok(v) => v,
        Err(e) => return Err(e),
    };
    Ok(Message::Error { code, message })
}

/// Whether messages of type `tag` have a field `key`.
pub open spec fn has_field(tag: Seq<char>, key: Seq<char>) -> bool {
    if tag == "hello"@ {
        key == "version"@ || key == "token"@ || key == "hostname"@
    } else if tag == "hello_ack"@ {
        key == "version"@ || key == "session_id"@
    } else if tag == "register_proxy"@ {
        key == "name"@ || key == "proxy_type"@ || key == "local_addr"@ || key == "remote_port"@
            || key == "vhost"@
    } else if tag == "register_proxy_ack"@ {
        key == "name"@ || key == "ok"@ || key == "error"@
    } else if tag == "new_connection"@ || tag == "conn_init"@ {
        key == "conn_id"@ || key == "proxy_name"@
    } else if tag == "ping"@ || tag == "pong"@ {
        key == "ts"@
    } else {
        tag == "error"@ && (key == "code"@ || key == "message"@)
    }
}

/// Whether `tag` names a type of message.
pub open spec fn known_type(tag: Seq<char>) -> bool {
    tag == "hello"@ || tag == "hello_ack"@ || tag == "register_proxy"@ || tag
        == "register_proxy_ack"@ || tag == "new_connection"@ || tag == "conn_init"@ || tag
        == "ping"@ || tag == "pong"@ || tag == "error"@
}

/// What is wrong with the value of the field `key` of a message; `None` if nothing is.
pub open spec fn field_fault(key: Seq<char>, value: JsonView, member: Option<Fields>) -> Option<
    Seq<char>,
> {
    if key == "proxy_type"@ {
        if denoted_type(value, member) is Some {
            None
        } else {
            Some(wrong_proxy_type(value, member))
        }
    } else if key == "hostname"@ || key == "vhost"@ || key == "error"@ {
        if value is Null || value is Text {
            None
        } else {
            Some(wrong_type(value, "a string"@))
        }
    } else if key == "remote_port"@ {
        if value is Null || (value matches JsonView::Integer(n) && 0 <= n <= u16::MAX) {
            None
        } else {
            Some(wrong_number(value, "u16"@))
        }
    } else if key == "ok"@ {
        if value is Bool {
            None
        } else {
            Some(wrong_type(value, "a boolean"@))
        }
    } else if key == "ts"@ {
        if value matches JsonView::Integer(n) && i64::MIN <= n <= i64::MAX {
            None
        } else {
            Some(wrong_number(value, "i64"@))
        }
    } else if key == "conn_id"@ {
        if value matches JsonView::Integer(n) && 0 <= n <= u64::MAX {
            None
        } else {
            Some(wrong_number(value, "u64"@))
        }
    } else if value is Text {
        None
    } else {
        Some(wrong_type(value, "a string"@))
    }
}

/// The first field of a message of type `tag` with a value that it cannot have, and
/// what is wrong with that value.
pub open spec fn first_fault(tag: Seq<char>, f: Fields, member: Option<Fields>) -> Option<
    (Seq<char>, Seq<char>),
>
    decreases f.len(),
{
    if f.len() == 0 {
        None
    } else {
        match field_fault(f[0].0, f[0].1, member) {
            Some(reason) if has_field(tag, f[0].0) => Some((f[0].0, reason)),
            _ => first_fault(tag, f.drop_first(), member),
        }
    }
}

/// The message of type `tag` that fields of the right kinds describe.
pub open spec fn assembled(tag: Seq<char>, f: Fields, member: Option<Fields>) -> Result<
    MessageView,
    ParseErrorView,
> {
    if tag == "hello"@ {
        hello_of(f)
    } else if tag == "hello_ack"@ {
        hello_ack_of(f)
    } else if tag == "register_proxy"@ {
        register_proxy_of(f, member)
    } else if tag == "register_proxy_ack"@ {
        register_proxy_ack_of(f)
    } else if tag == "new_connection"@ {
        new_connection_of(f)
    } else if tag == "conn_init"@ {
        conn_init_of(f)
    } else if tag == "ping"@ {
        ping_of(f)
    } else if tag == "pong"@ {
        pong_of(f)
    } else if tag == "error"@ {
        error_of(f)
    } else {
        Err(ParseErrorView::UnknownType(tag))
    }
}

/// The message that an object of type `tag` holds. Of several faults, a value of the
/// wrong kind counts before a field that is missing; the first such value in the
/// object counts, or else the first missing field in the order of declaration.
pub open spec fn message_of(tag: Seq<char>, f: Fields, member: Option<Fields>) -> Result<
    MessageView,
    ParseErrorView,
> {
    match first_fault(tag, f, member) {
        Some((key, reason)) => Err(invalid_field(key, reason)),
        None => assembled(tag, f, member),
    }
}

/// The message that an object holds; `member` is the content of its field
/// `proxy_type` if that is an object.
pub open spec fn decoded(f: Fields, member: Option<Fields>) -> Result<
    MessageView,
    ParseErrorView,
> {
    match lookup(f, "type"@) {
        Some(JsonView::Text(tag)) => message_of(tag, f, member),
        _ => Err(ParseErrorView::MissingType),
    }
}

/// The message that a payload holds.
pub open spec fn parsed(payload: Seq<u8>) -> Result<MessageView, ParseErrorView> {
    match json_read(payload) {
        Err(e) => Err(ParseErrorView::Json(e)),
        Ok(None) => Err(ParseErrorView::MissingType),
        Ok(Some(f)) => decoded(f, json_member(payload, "proxy_type"@)),
    }
}

fn is_field(tag: &str, key: &str) -> (yes: bool)
    ensures
        yes == has_field(tag@, key@),
{
    if same_text(tag, "hello") {
        same_text(key, "version") || same_text(key, "token") || same_text(key, "hostname")
    } else if same_text(tag, "hello_ack") {
        same_text(key, "version") || same_text(key, "session_id")
    } else if same_text(tag, "register_proxy") {
        same_text(key, "name") || same_text(key, "proxy_type") || same_text(key, "local_addr")
            || same_text(key, "remote_port") || same_text(key, "vhost")
    } else if same_text(tag, "register_proxy_ack") {
        same_text(key, "name") || same_text(key, "ok") || same_text(key, "error")
    } else if same_text(tag, "new_connection") || same_text(tag, "conn_init") {
        same_text(key, "conn_id") || same_text(key, "proxy_name")
    } else if same_text(tag, "ping") || same_text(tag, "pong") {
        same_text(key, "ts")
    } else {
        same_text(tag, "error") && (same_text(key, "code") || same_text(key, "message"))
    }
}

fn find_field_fault(key: &str, value: &Json, member: &Option<Vec<(String, Json)>>) -> (fault:
    Option<String>)
    ensures
        opt_text(fault) == field_fault(key@, value@, member_view(*member)),
{
    if same_text(key, "proxy_type") {
        match ProxyType::denoted_by(value, member) {
            Some(_) => None,
            None => Some(wrong_proxy_type_text(value, member)),
        }
    } else if same_text(key, "hostname") || same_text(key, "vhost") || same_text(key, "error") {
        match value {
            Json::Null | Json::Text(_) => None,
            _ => Some(wrong_type_text(value, "a string")),
        }
    } else if same_text(key, "remote_port") {
        match value {
            Json::Null => None,
            Json::Integer(n) if 0 <= *n && *n <= u16::MAX as i128 => None,
            _ => Some(wrong_number_text(value, "u16")),
        }
    } else if same_text(key, "ok") {
        match value {
            Json::Bool(_) => None,
            _ => Some(wrong_type_text(value, "a boolean")),
        }
    } else if same_text(key, "ts") {
        match value {
            Json::Integer(n) if i64::MIN as i128 <= *n && *n <= i64::MAX as i128 => None,
            _ => Some(wrong_number_text(value, "i64")),
        }
    } else if same_text(key, "conn_id") {
        match value {
            Json::Integer(n) if 0 <= *n && *n <= u64::MAX as i128 => None,
            _ => Some(wrong_number_text(value, "u64")),
        }
    } else {
        match value {
            Json::Text(_) => None,
            _ => Some(wrong_type_text(value, "a string")),
        }
    }
}

fn find_fault(
    tag: &str,
    fields: &Vec<(String, Json)>,
    member: &Option<Vec<(String, Json)>>,
) -> (fault: Option<(String, String)>)
    ensures
        match fault {
            Some((key, reason)) => first_fault(tag@, fields_view(fields@), member_view(*member))
                == Some((key@, reason@)),
            None => first_fault(tag@, fields_view(fields@), member_view(*member)) is None,
        },
{
    let ghost all = fields_view(fields@);
    let ghost m = member_view(*member);
    let mut i: usize = 0;
    assert(all.skip(0) =~= all);
    while i < fields.len()
        invariant
            i <= fields@.len(),
            all == fields_view(fields@),
            m == member_view(*member),
            first_fault(tag@, all, m) == first_fault(tag@, all.skip(i as int), m),
        decreases fields@.len() - i,
    {
        assert(all.skip(i as int)[0] == all[i as int]);
        assert(all.skip(i as int).drop_first() =~= all.skip(i + 1));
        let (key, value) = &fields[i];
        if is_field(tag, key.as_str()) {
            if let Some(reason) = find_field_fault(key.as_str(), value, member) {
                return Some((key.clone(), reason));
            }
        }
        i = i + 1;
    }
    None
}

fn decode_as(
    tag: &String,
    fields: &Vec<(String, Json)>,
    member: &Option<Vec<(String, Json)>>,
) -> (r: Result<Message, ParseError>)
    ensures
        agrees(r, message_of(tag@, fields_view(fields@), member_view(*member))),
{
    let tag = tag.as_str();
    if let Some((field, reason)) = find_fault(tag, fields, member) {
        return Err(ParseError::InvalidField { field, reason });
    }
    if same_text(tag, "hello") {
        decode_hello(fields)
    } else if same_text(tag, "hello_ack") {
        decode_hello_ack(fields)
    } else if same_text(tag, "register_proxy") {
        decode_register_proxy(fields, member)
    } else if same_text(tag, "register_proxy_ack") {
        decode_register_proxy_ack(fields)
    } else if same_text(tag, "new_connection") {
        decode_new_connection(fields)
    } else if same_text(tag, "conn_init") {
        decode_conn_init(fields)
    } else if same_text(tag, "ping") {
        decode_ping(fields)
    } else if same_text(tag, "pong") {
        decode_pong(fields)
    } else if same_text(tag, "error") {
        decode_error(fields)
    } else {
        Err(ParseError::UnknownType(tag.to_owned()))
    }
}

// Fields of a message.

/// A text field to write.
pub open spec fn put_text(key: Seq<char>, value: Seq<char>) -> Fields {
    seq![(key, JsonView::Text(value))]
}

/// An optional text field to write; nothing is written for `None`.
pub open spec fn put_opt_text(key: Seq<char>, value: Option<Seq<char>>) -> Fields {
    match value {
        Some(s) => seq![(key, JsonView::Text(s))],
        None => Seq::empty(),
    }
}

/// An integer field to write.
pub open spec fn put_int(key: Seq<char>, value: int) -> Fields {
    seq![(key, JsonView::Integer(value))]
}

/// An optional port to write; nothing is written for `None`.
pub open spec fn put_opt_port(key: Seq<char>, value: Option<u16>) -> Fields {
    match value {
        Some(p) => seq![(key, JsonView::Integer(p as int))],
        None => Seq::empty(),
    }
}

/// A boolean field to write.
pub open spec fn put_bool(key: Seq<char>, value: bool) -> Fields {
    seq![(key, JsonView::Bool(value))]
}

/// The fields of the object that carries a message: `type` first, the others in
/// the order of their declaration, optional ones only when present.
pub open spec fn fields_of(m: MessageView) -> Fields {
    match m {
        MessageView::Hello { version, token, hostname } => put_text("type"@, "hello"@)
            + put_text("version"@, version)
            + put_text("token"@, token)
            + put_opt_text("hostname"@, hostname),
        MessageView::HelloAck { version, session_id } => put_text("type"@, "hello_ack"@)
            + put_text("version"@, version)
            + put_text("session_id"@, session_id),
        MessageView::RegisterProxy { name, proxy_type, local_addr, remote_port, vhost } => put_text("type"@, "register_proxy"@)
            + put_text("name"@, name)
            + put_text("proxy_type"@, proxy_type_name(proxy_type))
            + put_text("local_addr"@, local_addr)
            + put_opt_port("remote_port"@, remote_port)
            + put_opt_text("vhost"@, vhost),
        MessageView::RegisterProxyAck { name, ok, error } => put_text("type"@, "register_proxy_ack"@)
            + put_text("name"@, name)
            + put_bool("ok"@, ok)
            + put_opt_text("error"@, error),
        MessageView::NewConnection { conn_id, proxy_name } => put_text("type"@, "new_connection"@)
            + put_int("conn_id"@, conn_id as int)
            + put_text("proxy_name"@, proxy_name),
        MessageView::ConnInit { conn_id, proxy_name } => put_text("type"@, "conn_init"@)
            + put_int("conn_id"@, conn_id as int)
            + put_text("proxy_name"@, proxy_name),
        MessageView::Ping { ts } => put_text("type"@, "ping"@)
            + put_int("ts"@, ts as int),
        MessageView::Pong { ts } => put_text("type"@, "pong"@)
            + put_int("ts"@, ts as int),
        MessageView::Error { code, message } => put_text("type"@, "error"@)
            + put_text("code"@, code)
            + put_text("message"@, message),
    }
}

fn push_text(fields: &mut Vec<(String, Json)>, key: &str, value: &String)
    ensures
        fields_view(final(fields)@) == fields_view(old(fields)@) + put_text(key@, value@),
{
    fields.push((key.to_owned(), Json::Text(value.clone())));
    assert(fields_view(fields@) =~= fields_view(old(fields)@) + put_text(key@, value@));
}

fn push_opt_text(fields: &mut Vec<(String, Json)>, key: &str, value: &Option<String>)
    ensures
        fields_view(final(fields)@) == fields_view(old(fields)@) + put_opt_text(key@, opt_text(*value)),
{
    match value {
        Some(s) => push_text(fields, key, s),
        None => {
            assert(fields_view(fields@) =~= fields_view(fields@) + Seq::empty());
        },
    }
}

fn push_int(fields: &mut Vec<(String, Json)>, key: &str, value: i128)
    ensures
        fields_view(final(fields)@) == fields_view(old(fields)@) + put_int(key@, value as int),
{
    fields.push((key.to_owned(), Json::Integer(value)));
    assert(fields_view(fields@) =~= fields_view(old(fields)@) + put_int(key@, value as int));
}

fn push_opt_port(fields: &mut Vec<(String, Json)>, key: &str, value: &Option<u16>)
    ensures
        fields_view(final(fields)@) == fields_view(old(fields)@) + put_opt_port(key@, *value),
{
    match value {
        Some(p) => push_int(fields, key, *p as i128),
        None => {
            assert(fields_view(fields@) =~= fields_view(fields@) + Seq::empty());
        },
    }
}

fn push_bool(fields: &mut Vec<(String, Json)>, key: &str, value: bool)
    ensures
        fields_view(final(fields)@) == fields_view(old(fields)@) + put_bool(key@, value),
{
    fields.push((key.to_owned(), Json::Bool(value)));
    assert(fields_view(fields@) =~= fields_view(old(fields)@) + put_bool(key@, value));
}

fn object_fields(message: &Message) -> (fields: Vec<(String, Json)>)
    ensures
        fields_view(fields@) == fields_of(message@),
{
    let mut fields: Vec<(String, Json)> = Vec::new();
    assert(fields_view(fields@) =~= Seq::empty());
    match message {
        Message::Hello { version, token, hostname } => {
            push_tag(&mut fields, "hello");
            push_text(&mut fields, "version", version);
            push_text(&mut fields, "token", token);
            push_opt_text(&mut fields, "hostname", hostname);
        },
        Message::HelloAck { version, session_id } => {
            push_tag(&mut fields, "hello_ack");
            push_text(&mut fields, "version", version);
            push_text(&mut fields, "session_id", session_id);
        },
        Message::RegisterProxy { name, proxy_type, local_addr, remote_port, vhost } => {
            push_tag(&mut fields, "register_proxy");
            push_text(&mut fields, "name", name);
            push_text(&mut fields, "proxy_type", &proxy_type.name());
            push_text(&mut fields, "local_addr", local_addr);
            push_opt_port(&mut fields, "remote_port", remote_port);
            push_opt_text(&mut fields, "vhost", vhost);
        },
        Message::RegisterProxyAck { name, ok, error } => {
            push_tag(&mut fields, "register_proxy_ack");
            push_text(&mut fields, "name", name);
            push_bool(&mut fields, "ok", *ok);
            push_opt_text(&mut fields, "error", error);
        },
        Message::NewConnection { conn_id, proxy_name } => {
            push_tag(&mut fields, "new_connection");
            push_int(&mut fields, "conn_id", *conn_id as i128);
            push_text(&mut fields, "proxy_name", proxy_name);
        },
        Message::ConnInit { conn_id, proxy_name } => {
            push_tag(&mut fields, "conn_init");
            push_int(&mut fields, "conn_id", *conn_id as i128);
            push_text(&mut fields, "proxy_name", proxy_name);
        },
        Message::Ping { ts } => {
            push_tag(&mut fields, "ping");
            push_int(&mut fields, "ts", *ts as i128);
        },
        Message::Pong { ts } => {
            push_tag(&mut fields, "pong");
            push_int(&mut fields, "ts", *ts as i128);
        },
        Message::Error { code, message } => {
            push_tag(&mut fields, "error");
            push_text(&mut fields, "code", code);
            push_text(&mut fields, "message", message);
        },
    }
    fields
}

fn push_tag(fields: &mut Vec<(String, Json)>, tag: &str)
    requires
        old(fields)@.len() == 0,
    ensures
        fields_view(final(fields)@) == put_text("type"@, tag@),
{
    let tag = tag.to_owned();
    push_text(fields, "type", &tag);
    assert(fields_view(fields@) =~= put_text("type"@, tag@));
}

/// The JSON text of a message.
pub open spec fn encoded(m: MessageView) -> Seq<u8> {
    json_written(fields_of(m))
}

/// Whether an object has a field of this name that is an object.
pub open spec fn has_object(f: Fields, key: Seq<char>) -> bool {
    exists|i: int| 0 <= i < f.len() && (#[trigger] f[i]).0 == key && f[i].1 is Object
}

fn holds_object(fields: &Vec<(String, Json)>, key: &str) -> (yes: bool)
    ensures
        yes == has_object(fields_view(fields@), key@),
{
    let ghost all = fields_view(fields@);
    let mut i: usize = 0;
    while i < fields.len()
        invariant
            i <= fields@.len(),
            all == fields_view(fields@),
            forall|j: int|
                0 <= j < i ==> !((#[trigger] all[j]).0 == key@ && all[j].1 is Object),
        decreases fields@.len() - i,
    {
        assert(all[i as int] == (fields@[i as int].0@, fields@[i as int].1@));
        if same_text(fields[i].0.as_str(), key) {
            if let Json::Object(_) = &fields[i].1 {
                assert(all[i as int].1 is Object);
                return true;
            }
        }
        i = i + 1;
    }
    false
}

/// A value that was found stands somewhere in the list.
proof fn lemma_lookup_at(f: Fields, key: Seq<char>)
    ensures
        lookup(f, key) matches Some(v) ==> exists|i: int|
            0 <= i < f.len() && (#[trigger] f[i]).0 == key && f[i].1 == v,
    decreases f.len(),
{
    if f.len() > 0 && f[0].0 != key {
        lemma_lookup_at(f.drop_first(), key);
        if let Some(v) = lookup(f, key) {
            let i = choose|i: int|
                0 <= i < f.drop_first().len() && (#[trigger] f.drop_first()[i]).0 == key
                    && f.drop_first()[i].1 == v;
            assert(f[i + 1] == f.drop_first()[i]);
        }
    }
}

/// Where nothing nested stands under the name, it does not matter what does.
proof fn lemma_fault_without_object(tag: Seq<char>, f: Fields, member: Option<Fields>)
    requires
        !has_object(f, "proxy_type"@),
    ensures
        first_fault(tag, f, member) == first_fault(tag, f, None),
    decreases f.len(),
{
    if f.len() > 0 {
        assert(!(f[0].0 == "proxy_type"@ && f[0].1 is Object));
        assert(!has_object(f.drop_first(), "proxy_type"@)) by {
            assert forall|i: int| 0 <= i < f.drop_first().len() implies !((
            #[trigger] f.drop_first()[i]).0 == "proxy_type"@ && f.drop_first()[i].1 is Object) by {
                assert(f[i + 1] == f.drop_first()[i]);
            }
        }
        lemma_fault_without_object(tag, f.drop_first(), member);
    }
}

/// What stands inside `proxy_type` matters only if it is an object.
proof fn lemma_member_irrelevant(f: Fields, member: Option<Fields>)
    requires
        !has_object(f, "proxy_type"@),
    ensures
        decoded(f, member) == decoded(f, None),
{
    if let Some(JsonView::Text(tag)) = lookup(f, "type"@) {
        lemma_fault_without_object(tag, f, member);
        lemma_lookup_at(f, "proxy_type"@);
    }
}

impl Message {
    /// Parses the payload of one frame.
    pub fn parse(buf: &[u8]) -> (r: Result<Message, ParseError>)
        ensures
            agrees(r, parsed(buf@)),
    {
        match read_object(buf) {
            Err(e) => Err(ParseError::Json(e)),
            Ok(None) => Err(ParseError::MissingType),
            Ok(Some(fields)) => {
                if holds_object(&fields, "proxy_type") {
                    let member = read_member(buf, "proxy_type");
                    Message::from_fields(&fields, &member)
                } else {
                    proof {
                        lemma_member_irrelevant(
                            fields_view(fields@),
                            json_member(buf@, "proxy_type"@),
                        );
                    }
                    Message::from_fields(&fields, &None)
                }
            },
        }
    }

    /// The message that the fields of an object describe; `member` holds the fields of
    /// its field `proxy_type` if that is an object.
    pub fn from_fields(
        fields: &Vec<(String, Json)>,
        member: &Option<Vec<(String, Json)>>,
    ) -> (r: Result<Message, ParseError>)
        ensures
            agrees(r, decoded(fields_view(fields@), member_view(*member))),
    {
        match find_field(fields, "type") {
            Some(Json::Text(tag)) => decode_as(tag, fields, member),
            _ => Err(ParseError::MissingType),
        }
    }

    /// The fields of the object that carries the message.
    pub fn to_fields(&self) -> (fields: Vec<(String, Json)>)
        ensures
            fields_view(fields@) == fields_of(self@),
    {
        object_fields(self)
    }

    /// Encodes the message as JSON. Parsing the result gives the message back.
    pub fn encode(&self) -> (payload: Vec<u8>)
        ensures
            payload@ == encoded(self@),
            json_read(payload@) == object_of(fields_of(self@)),
            parsed(payload@) == Ok::<MessageView, ParseErrorView>(self@),
    {
        let fields = self.to_fields();
        proof {
            lemma_fields_writable(self@);
            law_fields_roundtrip(self@, json_member(encoded(self@), "proxy_type"@));
            assert forall|i: int| 0 <= i < fields@.len() implies writable(
                (#[trigger] fields@[i]).1@,
            ) by {
                assert(fields_view(fields@)[i].1 == fields@[i].1@);
            }
        }
        write_object(fields)
    }
}

/// The names of the fields of messages are different texts.
proof fn lemma_keys_differ()
    ensures
        "type"@ != "version"@,
        "type"@ != "token"@,
        "type"@ != "hostname"@,
        "type"@ != "session_id"@,
        "type"@ != "name"@,
        "type"@ != "proxy_type"@,
        "type"@ != "local_addr"@,
        "type"@ != "remote_port"@,
        "type"@ != "vhost"@,
        "type"@ != "ok"@,
        "type"@ != "error"@,
        "type"@ != "conn_id"@,
        "type"@ != "proxy_name"@,
        "type"@ != "ts"@,
        "type"@ != "code"@,
        "type"@ != "message"@,
        "version"@ != "token"@,
        "version"@ != "hostname"@,
        "version"@ != "session_id"@,
        "token"@ != "hostname"@,
        "name"@ != "proxy_type"@,
        "name"@ != "local_addr"@,
        "name"@ != "remote_port"@,
        "name"@ != "vhost"@,
        "name"@ != "ok"@,
        "name"@ != "error"@,
        "proxy_type"@ != "local_addr"@,
        "proxy_type"@ != "remote_port"@,
        "proxy_type"@ != "vhost"@,
        "local_addr"@ != "remote_port"@,
        "local_addr"@ != "vhost"@,
        "remote_port"@ != "vhost"@,
        "ok"@ != "error"@,
        "conn_id"@ != "proxy_name"@,
        "code"@ != "message"@,
{
    reveal_strlit("type");
    assert("type"@.len() == 4);
    reveal_strlit("version");
    assert("version"@.len() == 7);
    reveal_strlit("token");
    assert("token"@.len() == 5);
    reveal_strlit("hostname");
    assert("hostname"@.len() == 8);
    reveal_strlit("session_id");
    assert("session_id"@.len() == 10);
    reveal_strlit("name");
    assert("name"@.len() == 4);
    reveal_strlit("proxy_type");
    assert("proxy_type"@.len() == 10);
    reveal_strlit("local_addr");
    assert("local_addr"@.len() == 10);
    reveal_strlit("remote_port");
    assert("remote_port"@.len() == 11);
    reveal_strlit("vhost");
    assert("vhost"@.len() == 5);
    reveal_strlit("ok");
    assert("ok"@.len() == 2);
    reveal_strlit("error");
    assert("error"@.len() == 5);
    reveal_strlit("conn_id");
    assert("conn_id"@.len() == 7);
    reveal_strlit("proxy_name");
    assert("proxy_name"@.len() == 10);
    reveal_strlit("ts");
    assert("ts"@.len() == 2);
    reveal_strlit("code");
    assert("code"@.len() == 4);
    reveal_strlit("message");
    assert("message"@.len() == 7);
    assert("type"@[0] != "name"@[0]);
    assert("type"@[0] != "code"@[0]);
    assert("proxy_type"@[0] != "local_addr"@[0]);
}

/// The types of messages are different texts.
proof fn lemma_tags_differ()
    ensures
        "hello_ack"@ != "hello"@,
        "register_proxy"@ != "hello"@,
        "register_proxy"@ != "hello_ack"@,
        "register_proxy_ack"@ != "hello"@,
        "register_proxy_ack"@ != "hello_ack"@,
        "register_proxy_ack"@ != "register_proxy"@,
        "new_connection"@ != "hello"@,
        "new_connection"@ != "hello_ack"@,
        "new_connection"@ != "register_proxy"@,
        "new_connection"@ != "register_proxy_ack"@,
        "conn_init"@ != "hello"@,
        "conn_init"@ != "hello_ack"@,
        "conn_init"@ != "register_proxy"@,
        "conn_init"@ != "register_proxy_ack"@,
        "conn_init"@ != "new_connection"@,
        "ping"@ != "hello"@,
        "ping"@ != "hello_ack"@,
        "ping"@ != "register_proxy"@,
        "ping"@ != "register_proxy_ack"@,
        "ping"@ != "new_connection"@,
        "ping"@ != "conn_init"@,
        "pong"@ != "hello"@,
        "pong"@ != "hello_ack"@,
        "pong"@ != "register_proxy"@,
        "pong"@ != "register_proxy_ack"@,
        "pong"@ != "new_connection"@,
        "pong"@ != "conn_init"@,
        "pong"@ != "ping"@,
        "error"@ != "hello"@,
        "error"@ != "hello_ack"@,
        "error"@ != "register_proxy"@,
        "error"@ != "register_proxy_ack"@,
        "error"@ != "new_connection"@,
        "error"@ != "conn_init"@,
        "error"@ != "ping"@,
        "error"@ != "pong"@,
{
    reveal_strlit("hello");
    assert("hello"@.len() == 5);
    reveal_strlit("hello_ack");
    assert("hello_ack"@.len() == 9);
    reveal_strlit("register_proxy");
    assert("register_proxy"@.len() == 14);
    reveal_strlit("register_proxy_ack");
    assert("register_proxy_ack"@.len() == 18);
    reveal_strlit("new_connection");
    assert("new_connection"@.len() == 14);
    reveal_strlit("conn_init");
    assert("conn_init"@.len() == 9);
    reveal_strlit("ping");
    assert("ping"@.len() == 4);
    reveal_strlit("pong");
    assert("pong"@.len() == 4);
    reveal_strlit("error");
    assert("error"@.len() == 5);
    assert("new_connection"@[0] != "register_proxy"@[0]);
    assert("conn_init"@[0] != "hello_ack"@[0]);
    assert("pong"@[1] != "ping"@[1]);
    assert("error"@[0] != "hello"@[0]);
}

/// The names of proxy types are different texts.
proof fn lemma_proxy_types_differ()
    ensures
        "udp"@ != "tcp"@,
        "http"@ != "tcp"@,
        "http"@ != "udp"@,
        "https"@ != "tcp"@,
        "https"@ != "udp"@,
        "https"@ != "http"@,
{
    reveal_strlit("tcp");
    assert("tcp"@.len() == 3);
    reveal_strlit("udp");
    assert("udp"@.len() == 3);
    reveal_strlit("http");
    assert("http"@.len() == 4);
    reveal_strlit("https");
    assert("https"@.len() == 5);
    assert("udp"@[0] != "tcp"@[0]);
}

/// A field is found in the first of two lists, or else in the second.
proof fn lemma_lookup_concat(a: Fields, b: Fields, key: Seq<char>)
    ensures
        lookup(a + b, key) == (if lookup(a, key) is Some {
            lookup(a, key)
        } else {
            lookup(b, key)
        }),
    decreases a.len(),
{
    if a.len() == 0 {
        assert(a + b =~= b);
    } else {
        assert((a + b).drop_first() =~= a.drop_first() + b);
        lemma_lookup_concat(a.drop_first(), b, key);
    }
}

/// The fields of a message have different names and can be written.
proof fn lemma_fields_writable(m: MessageView)
    ensures
        distinct_names(fields_of(m)),
        forall|i: int| 0 <= i < fields_of(m).len() ==> writable((#[trigger] fields_of(m)[i]).1),
{
    lemma_keys_differ();
}

/// Lookup in a list of one field.
proof fn lemma_lookup_one(name: Seq<char>, value: JsonView, key: Seq<char>)
    ensures
        lookup(seq![(name, value)], key) == (if name == key {
            Some(value)
        } else {
            None
        }),
{
    let one = seq![(name, value)];
    assert(one.drop_first().len() == 0);
    reveal_with_fuel(lookup, 2);
}

/// The values that messages are written with are of the right kinds.
proof fn lemma_written_fits(member: Option<Fields>)
    ensures
        forall|s: Seq<char>| #[trigger] field_fault("type"@, JsonView::Text(s), member) is None,
        forall|s: Seq<char>| #[trigger] field_fault("version"@, JsonView::Text(s), member) is None,
        forall|s: Seq<char>| #[trigger] field_fault("token"@, JsonView::Text(s), member) is None,
        forall|s: Seq<char>| #[trigger] field_fault("session_id"@, JsonView::Text(s), member) is None,
        forall|s: Seq<char>| #[trigger] field_fault("name"@, JsonView::Text(s), member) is None,
        forall|s: Seq<char>| #[trigger] field_fault("local_addr"@, JsonView::Text(s), member) is None,
        forall|s: Seq<char>| #[trigger] field_fault("proxy_name"@, JsonView::Text(s), member) is None,
        forall|s: Seq<char>| #[trigger] field_fault("code"@, JsonView::Text(s), member) is None,
        forall|s: Seq<char>| #[trigger] field_fault("message"@, JsonView::Text(s), member) is None,
        forall|s: Seq<char>| #[trigger] field_fault("hostname"@, JsonView::Text(s), member) is None,
        forall|s: Seq<char>| #[trigger] field_fault("vhost"@, JsonView::Text(s), member) is None,
        forall|s: Seq<char>| #[trigger] field_fault("error"@, JsonView::Text(s), member) is None,
        forall|t: ProxyType| #[trigger]
            field_fault("proxy_type"@, JsonView::Text(proxy_type_name(t)), member) is None,
        forall|n: int| 0 <= n <= u16::MAX ==> #[trigger] field_fault(
            "remote_port"@,
            JsonView::Integer(n),
            member,
        ) is None,
        forall|b: bool| #[trigger] field_fault("ok"@, JsonView::Bool(b), member) is None,
        forall|n: int| i64::MIN <= n <= i64::MAX ==> #[trigger] field_fault(
            "ts"@,
            JsonView::Integer(n),
            member,
        ) is None,
        forall|n: int| 0 <= n <= u64::MAX ==> #[trigger] field_fault(
            "conn_id"@,
            JsonView::Integer(n),
            member,
        ) is None,
{
    reveal_strlit("type");
    assert("type"@.len() == 4);
    reveal_strlit("version");
    assert("version"@.len() == 7);
    reveal_strlit("token");
    assert("token"@.len() == 5);
    reveal_strlit("session_id");
    assert("session_id"@.len() == 10);
    reveal_strlit("name");
    assert("name"@.len() == 4);
    reveal_strlit("local_addr");
    assert("local_addr"@.len() == 10);
    reveal_strlit("proxy_name");
    assert("proxy_name"@.len() == 10);
    reveal_strlit("code");
    assert("code"@.len() == 4);
    reveal_strlit("message");
    assert("message"@.len() == 7);
    reveal_strlit("proxy_type");
    assert("proxy_type"@.len() == 10);
    reveal_strlit("hostname");
    assert("hostname"@.len() == 8);
    reveal_strlit("vhost");
    assert("vhost"@.len() == 5);
    reveal_strlit("error");
    assert("error"@.len() == 5);
    reveal_strlit("remote_port");
    assert("remote_port"@.len() == 11);
    reveal_strlit("ok");
    assert("ok"@.len() == 2);
    reveal_strlit("ts");
    assert("ts"@.len() == 2);
    reveal_strlit("conn_id");
    assert("conn_id"@.len() == 7);
    assert("version"@[0] != "conn_id"@[0]);
    assert("message"@[0] != "conn_id"@[0]);
    assert("token"@[0] != "vhost"@[0]);
    assert("token"@[0] != "error"@[0]);
    assert("session_id"@[0] != "proxy_type"@[0]);
    assert("local_addr"@[0] != "proxy_type"@[0]);
    assert("proxy_name"@[6] != "proxy_type"@[6]);
    assert("ok"@[0] != "ts"@[0]);
}

/// The first fault of two lists of fields is that of the first, or else that of the
/// second.
proof fn lemma_fault_concat(tag: Seq<char>, a: Fields, b: Fields, member: Option<Fields>)
    ensures
        first_fault(tag, a + b, member) == (if first_fault(tag, a, member) is Some {
            first_fault(tag, a, member)
        } else {
            first_fault(tag, b, member)
        }),
    decreases a.len(),
{
    if a.len() == 0 {
        assert(a + b =~= b);
    } else {
        assert((a + b).drop_first() =~= a.drop_first() + b);
        lemma_fault_concat(tag, a.drop_first(), b, member);
    }
}

/// The first fault of a list of one field.
proof fn lemma_fault_one(tag: Seq<char>, key: Seq<char>, value: JsonView, member: Option<Fields>)
    ensures
        first_fault(tag, seq![(key, value)], member) is None <==> !has_field(tag, key)
            || field_fault(key, value, member) is None,
{
    assert(seq![(key, value)].drop_first().len() == 0);
    reveal_with_fuel(first_fault, 2);
}

/// Every field that a message is written with has a value that it can have.
proof fn lemma_written_has_no_fault(tag: Seq<char>, m: MessageView, member: Option<Fields>)
    ensures
        first_fault(tag, fields_of(m), member) is None,
{
    lemma_written_fits(member);
    assert forall|a: Fields, b: Fields|
        first_fault(tag, a, member) is None && first_fault(tag, b, member) is None implies (
    #[trigger] first_fault(tag, a + b, member)) is None by {
        lemma_fault_concat(tag, a, b, member);
    }
    assert forall|key: Seq<char>, value: JsonView|
        field_fault(key, value, member) is None implies (#[trigger] first_fault(
        tag,
        seq![(key, value)],
        member,
    )) is None by {
        lemma_fault_one(tag, key, value, member);
    }
}

/// Reading the fields that a message is written with gives the message back.
pub proof fn law_fields_roundtrip(m: MessageView, member: Option<Fields>)
    ensures
        decoded(fields_of(m), member) == Ok::<MessageView, ParseErrorView>(m),
{
    lemma_keys_differ();
    lemma_tags_differ();
    lemma_proxy_types_differ();
    assert forall|a: Fields, b: Fields, key: Seq<char>| #[trigger]
        lookup(a + b, key) == (if lookup(a, key) is Some {
            lookup(a, key)
        } else {
            lookup(b, key)
        }) by {
        lemma_lookup_concat(a, b, key);
    }
    assert forall|name: Seq<char>, value: JsonView, key: Seq<char>| #[trigger]
        lookup(seq![(name, value)], key) == (if name == key {
            Some(value)
        } else {
            None
        }) by {
        lemma_lookup_one(name, value, key);
    }
    assert forall|key: Seq<char>| #[trigger] lookup(Seq::empty(), key) is None by {}
    assert forall|tag: Seq<char>| (#[trigger] first_fault(tag, fields_of(m), member)) is None by {
        lemma_written_has_no_fault(tag, m, member);
    }
}

/// Every JSON text that holds the fields of a message parses to the message. What
/// [`Message::encode`] writes is such a text.
pub proof fn law_encode_parse_roundtrip(m: MessageView, payload: Seq<u8>)
    requires
        json_read(payload) == object_of(fields_of(m)),
    ensures
        parsed(payload) == Ok::<MessageView, ParseErrorView>(m),
{
    law_fields_roundtrip(m, json_member(payload, "proxy_type"@));
}

/// A field that messages of this type do not have is ignored, whatever it holds
/// and wherever it stands.
pub proof fn law_unknown_field_ignored(
    before: Fields,
    key: Seq<char>,
    value: JsonView,
    after: Fields,
    member: Option<Fields>,
    tag: Seq<char>,
)
    requires
        lookup(before + after, "type"@) == Some(JsonView::Text(tag)),
        key != "type"@,
        !has_field(tag, key),
    ensures
        decoded(before + seq![(key, value)] + after, member) == decoded(before + after, member),
{
    lemma_tags_differ();
    let extra = before + seq![(key, value)] + after;
    let plain = before + after;
    assert forall|k: Seq<char>| k != key implies lookup(extra, k) == lookup(plain, k) by {
        lemma_lookup_concat(before + seq![(key, value)], after, k);
        lemma_lookup_concat(before, seq![(key, value)], k);
        lemma_lookup_concat(before, after, k);
        lemma_lookup_one(key, value, k);
    }
    lemma_fault_concat(tag, before + seq![(key, value)], after, member);
    lemma_fault_concat(tag, before, seq![(key, value)], member);
    lemma_fault_concat(tag, before, after, member);
    lemma_fault_one(tag, key, value, member);
}

/// An unknown type has no fields, so none of them can be wrong.
proof fn lemma_unknown_has_no_fault(tag: Seq<char>, f: Fields, member: Option<Fields>)
    requires
        !known_type(tag),
    ensures
        first_fault(tag, f, member) is None,
    decreases f.len(),
{
    if f.len() > 0 {
        lemma_unknown_has_no_fault(tag, f.drop_first(), member);
    }
}

/// An object whose `type` names no message is an error that says so.
pub proof fn law_unknown_type_is_error(f: Fields, member: Option<Fields>, tag: Seq<char>)
    requires
        lookup(f, "type"@) == Some(JsonView::Text(tag)),
        !known_type(tag),
    ensures
        decoded(f, member) == Err::<MessageView, ParseErrorView>(ParseErrorView::UnknownType(tag)),
{
    lemma_unknown_has_no_fault(tag, f, member);
}

/// Only objects with a known `type` are messages.
pub proof fn law_message_has_known_type(f: Fields, member: Option<Fields>)
    requires
        decoded(f, member) is Ok,
    ensures
        lookup(f, "type"@) matches Some(JsonView::Text(tag)) && known_type(tag),
{
}

// Descriptions of errors.

/// The description of an error.
pub open spec fn parse_error_text(e: ParseErrorView) -> Seq<char> {
    match e {
        ParseErrorView::Json(text) => "invalid json: "@ + text,
        ParseErrorView::MissingType => "missing `type` field"@,
        ParseErrorView::UnknownType(tag) => "invalid json: unknown variant `"@ + tag
            + "`, expected one of `hello`, `hello_ack`, `register_proxy`, `register_proxy_ack`, `new_connection`, `conn_init`, `ping`, `pong`, `error`"@,
        ParseErrorView::MissingField(field) => "invalid json: missing field `"@ + field + "`"@,
        ParseErrorView::InvalidField { field: _, reason } => "invalid json: "@ + reason,
    }
}

impl ParseError {
    /// Describes the error.
    pub fn text(&self) -> (text: String)
        ensures
            text@ == parse_error_text(self@),
    {
        match self {
            ParseError::Json(e) => joined("invalid json: ", e.as_str()),
            ParseError::MissingType => "missing `type` field".to_owned(),
            ParseError::UnknownType(tag) => {
                let text = joined("invalid json: unknown variant `", tag.as_str());
                joined(
                    text.as_str(),
                    "`, expected one of `hello`, `hello_ack`, `register_proxy`, `register_proxy_ack`, `new_connection`, `conn_init`, `ping`, `pong`, `error`",
                )
            },
            ParseError::MissingField(field) => {
                let text = joined("invalid json: missing field `", field.as_str());
                joined(text.as_str(), "`")
            },
            ParseError::InvalidField { field: _, reason } => joined(
                "invalid json: ",
                reason.as_str(),
            ),
        }
    }
}

// Versions.

/// Whether a peer of this version can be talked to: its major number, all that
/// precedes the first dot, is ours.
pub open spec fn compatible(their: Seq<char>) -> bool {
    before_first(their, '.') == before_first(VERSION@, '.')
}

/// Whether the major number of `their` version is ours.
pub fn version_compatible(their: &str) -> (yes: bool)
    ensures
        yes == compatible(their@),
{
    text_before(their, '.') == text_before(VERSION, '.')
}

/// The compatible versions are `1` and all that begin with `1.`: the minor
/// number does not matter.
pub proof fn law_compatible_versions(their: Seq<char>)
    ensures
        compatible(their) <==> their.len() >= 1 && their[0] == '1' && (their.len() >= 2
            ==> their[1] == '.'),
{
    reveal_strlit("1.0");
    assert("1.0"@.len() == 3);
    assert("1.0"@[0] == '1');
    assert("1.0"@[1] == '.');
    lemma_before_first_is(VERSION@, '.', 1);
    lemma_before_first(their, '.');
    let major = before_first(their, '.');
    if compatible(their) {
        assert(major.len() == 1);
        assert(major[0] == '1');
        assert(their.take(1)[0] == their[0]);
    }
    if their.len() >= 1 && their[0] == '1' && (their.len() >= 2 ==> their[1] == '.') {
        lemma_before_first_is(their, '.', 1);
        assert(their.take(1) =~= VERSION@.take(1));
    }
}

} // verus!
