//! Messages and their JSON form.
use crate::fault::{wrong_number_text, wrong_type_text, wrong_value_text};
use crate::json::{
    fields_view, find_field, json_member, json_read, lookup, member_view, Fields, Json, JsonView,
};
use crate::laws::server::major_one;
use crate::msg::{
    assembled, decoded, denoted_type, field_fault, first_fault, has_field, known_type,
    law_compatible_versions, names_type, version_compatible, Message, MessageView, ParseError,
    ParseErrorView, ProxyType,
};
use crate::text::{quoted, signed};
use vstd::prelude::*;

verus! {

// Content.

/// The content of a message is all that it holds: two messages with the same content are
/// of the same type and have the same fields.
pub proof fn law_message_content(a: Message, b: Message)
    requires
        a@ == b@,
    ensures
        match a {
            Message::Hello { version, token, hostname } => b matches Message::Hello {
                version: v,
                token: t,
                hostname: h,
            } && v@ == version@ && t@ == token@ && (h is Some <==> hostname is Some) && (
            hostname matches Some(s) ==> h->0@ == s@),
            Message::HelloAck { version, session_id } => b matches Message::HelloAck {
                version: v,
                session_id: s,
            } && v@ == version@ && s@ == session_id@,
            Message::RegisterProxy { name, proxy_type, local_addr, remote_port, vhost } => b
                matches Message::RegisterProxy {
                name: n,
                proxy_type: t,
                local_addr: l,
                remote_port: p,
                vhost: h,
            } && n@ == name@ && t == proxy_type && l@ == local_addr@ && p == remote_port && (h
                is Some <==> vhost is Some) && (vhost matches Some(s) ==> h->0@ == s@),
            Message::RegisterProxyAck { name, ok, error } => b matches Message::RegisterProxyAck {
                name: n,
                ok: o,
                error: e,
            } && n@ == name@ && o == ok && (e is Some <==> error is Some) && (error matches Some(
                s,
            ) ==> e->0@ == s@),
            Message::NewConnection { conn_id, proxy_name } => b matches Message::NewConnection {
                conn_id: c,
                proxy_name: n,
            } && c == conn_id && n@ == proxy_name@,
            Message::ConnInit { conn_id, proxy_name } => b matches Message::ConnInit {
                conn_id: c,
                proxy_name: n,
            } && c == conn_id && n@ == proxy_name@,
            Message::Ping { ts } => b == Message::Ping { ts },
            Message::Pong { ts } => b == Message::Pong { ts },
            Message::Error { code, message } => b matches Message::Error { code: c, message: m }
                && c@ == code@ && m@ == message@,
        },
{
}

/// The content of a value is all that it holds.
pub proof fn law_json_content(a: Json, b: Json)
    requires
        a@ == b@,
    ensures
        match a {
            Json::Null => b is Null,
            Json::Bool(x) => b == Json::Bool(x),
            Json::Integer(x) => b == Json::Integer(x),
            Json::Fraction(x) => b matches Json::Fraction(y) && y@ == x@,
            Json::Text(x) => b matches Json::Text(y) && y@ == x@,
            Json::Array => b is Array,
            Json::Object(x) => b == Json::Object(x),
        },
{
}

// Fields.

/// Whether the first field of this name has this value; without a value, whether there
/// is none of this name.
pub open spec fn stands(f: Fields, key: Seq<char>, value: Option<JsonView>) -> bool {
    match value {
        Some(v) => exists|i: int|
            0 <= i < f.len() && #[trigger] f[i] == (key, v) && (forall|j: int|
                0 <= j < i ==> (#[trigger] f[j]).0 != key),
        None => forall|j: int| 0 <= j < f.len() ==> (#[trigger] f[j]).0 != key,
    }
}

proof fn lemma_stands(f: Fields, key: Seq<char>)
    ensures
        stands(f, key, lookup(f, key)),
        forall|value: Option<JsonView>| #[trigger] stands(f, key, value) ==> value == lookup(f, key),
    decreases f.len(),
{
    lemma_lookup_stands(f, key);
    assert forall|value: Option<JsonView>| #[trigger] stands(f, key, value) implies value == lookup(
        f,
        key,
    ) by {
        match (value, lookup(f, key)) {
            (Some(v), Some(w)) => {
                let i = choose|i: int|
                    0 <= i < f.len() && #[trigger] f[i] == (key, v) && (forall|j: int|
                        0 <= j < i ==> (#[trigger] f[j]).0 != key);
                let k = choose|k: int|
                    0 <= k < f.len() && #[trigger] f[k] == (key, w) && (forall|j: int|
                        0 <= j < k ==> (#[trigger] f[j]).0 != key);
                if i < k {
                    assert(f[i].0 != key);
                } else if k < i {
                    assert(f[k].0 != key);
                }
            },
            (Some(v), None) => {
                let i = choose|i: int| 0 <= i < f.len() && #[trigger] f[i] == (key, v);
                assert(f[i].0 != key);
            },
            (None, Some(w)) => {
                let k = choose|k: int| 0 <= k < f.len() && #[trigger] f[k] == (key, w);
                assert(f[k].0 != key);
            },
            (None, None) => {},
        }
    }
}

proof fn lemma_lookup_stands(f: Fields, key: Seq<char>)
    ensures
        stands(f, key, lookup(f, key)),
    decreases f.len(),
{
    if f.len() > 0 {
        if f[0].0 == key {
            assert(f[0] == (key, f[0].1));
        } else {
            let rest = f.drop_first();
            lemma_lookup_stands(rest, key);
            match lookup(rest, key) {
                Some(v) => {
                    let i = choose|i: int|
                        0 <= i < rest.len() && #[trigger] rest[i] == (key, v) && (forall|j: int|
                            0 <= j < i ==> (#[trigger] rest[j]).0 != key);
                    assert(f[i + 1] == (key, v));
                    assert forall|j: int| 0 <= j < i + 1 implies (#[trigger] f[j]).0 != key by {
                        if j > 0 {
                            assert(rest[j - 1] == f[j]);
                        }
                    }
                },
                None => {
                    assert forall|j: int| 0 <= j < f.len() implies (#[trigger] f[j]).0 != key by {
                        if j > 0 {
                            assert(rest[j - 1] == f[j]);
                        }
                    }
                },
            }
        }
    }
}

/// The first field of a name is found, with its value.
pub proof fn law_find_field(fields: &Vec<(String, Json)>, key: &str, found: Option<&Json>)
    requires
        call_ensures(find_field, (fields, key), found),
    ensures
        match found {
            Some(v) => exists|i: int|
                0 <= i < fields@.len() && (#[trigger] fields@[i]).0@ == key@ && fields@[i].1@ == v@
                    && (forall|j: int| 0 <= j < i ==> (#[trigger] fields@[j]).0@ != key@),
            None => forall|j: int| 0 <= j < fields@.len() ==> (#[trigger] fields@[j]).0@ != key@,
        },
{
    let f = fields_view(fields@);
    lemma_stands(f, key@);
    assert forall|j: int| 0 <= j < fields@.len() implies f[j] == (
        (#[trigger] fields@[j]).0@,
        fields@[j].1@,
    ) by {}
    match found {
        Some(v) => {
            let i = choose|i: int|
                0 <= i < f.len() && #[trigger] f[i] == (key@, v@) && (forall|j: int|
                    0 <= j < i ==> (#[trigger] f[j]).0 != key@);
            assert(fields@[i].0@ == key@);
            assert forall|j: int| 0 <= j < i implies (#[trigger] fields@[j]).0@ != key@ by {
                assert(f[j].0 != key@);
            }
        },
        None => {
            assert forall|j: int| 0 <= j < fields@.len() implies (#[trigger] fields@[j]).0@
                != key@ by {
                assert(f[j].0 != key@);
            }
        },
    }
}

// What is wrong with a value.

/// A value where it was not expected.
pub open spec fn shown(value: JsonView) -> Seq<char> {
    match value {
        JsonView::Null => "null"@,
        JsonView::Bool(b) => if b {
            "boolean `true`"@
        } else {
            "boolean `false`"@
        },
        JsonView::Integer(n) => "integer `"@ + signed(n) + "`"@,
        JsonView::Fraction(s) => "floating point `"@ + s + "`"@,
        JsonView::Text(s) => "string "@ + quoted(s),
        JsonView::Array => "sequence"@,
        JsonView::Object(_) => "map"@,
    }
}

/// A complaint: what kind of fault it is, what was found, and what was expected.
pub open spec fn complaint(fault: Seq<char>, value: JsonView, expected: Seq<char>) -> Seq<char> {
    fault + shown(value) + ", expected "@ + expected
}

/// A value of the wrong type is shown beside what was expected.
pub proof fn law_wrong_type_text(value: &Json, expected: &str, text: String)
    requires
        call_ensures(wrong_type_text, (value, expected), text),
    ensures
        text@ == complaint("invalid type: "@, value@, expected@),
{
}

/// A value out of range is shown beside what was expected.
pub proof fn law_wrong_value_text(value: &Json, expected: &str, text: String)
    requires
        call_ensures(wrong_value_text, (value, expected), text),
    ensures
        text@ == complaint("invalid value: "@, value@, expected@),
{
}

/// An integer in the wrong place is out of range, anything else of the wrong type.
pub proof fn law_wrong_number_text(value: &Json, expected: &str, text: String)
    requires
        call_ensures(wrong_number_text, (value, expected), text),
    ensures
        *value is Integer ==> text@ == complaint("invalid value: "@, value@, expected@),
        !(*value is Integer) ==> text@ == complaint("invalid type: "@, value@, expected@),
{
}

// What fields may hold.

/// What a field holds.
pub enum Kind {
    Text,
    OptionalText,
    Truth,
    Number,
    Stamp,
    OptionalPort,
    Type,
}

/// What the field `key` of messages of type `tag` holds; none if there is no such field.
pub open spec fn kind_of(tag: Seq<char>, key: Seq<char>) -> Option<Kind> {
    if tag == "hello"@ {
        if key == "version"@ || key == "token"@ {
            Some(Kind::Text)
        } else if key == "hostname"@ {
            Some(Kind::OptionalText)
        } else {
            None
        }
    } else if tag == "hello_ack"@ {
        if key == "version"@ || key == "session_id"@ {
            Some(Kind::Text)
        } else {
            None
        }
    } else if tag == "register_proxy"@ {
        if key == "name"@ || key == "local_addr"@ {
            Some(Kind::Text)
        } else if key == "proxy_type"@ {
            Some(Kind::Type)
        } else if key == "remote_port"@ {
            Some(Kind::OptionalPort)
        } else if key == "vhost"@ {
            Some(Kind::OptionalText)
        } else {
            None
        }
    } else if tag == "register_proxy_ack"@ {
        if key == "name"@ {
            Some(Kind::Text)
        } else if key == "ok"@ {
            Some(Kind::Truth)
        } else if key == "error"@ {
            Some(Kind::OptionalText)
        } else {
            None
        }
    } else if tag == "new_connection"@ || tag == "conn_init"@ {
        if key == "conn_id"@ {
            Some(Kind::Number)
        } else if key == "proxy_name"@ {
            Some(Kind::Text)
        } else {
            None
        }
    } else if tag == "ping"@ || tag == "pong"@ {
        if key == "ts"@ {
            Some(Kind::Stamp)
        } else {
            None
        }
    } else if tag == "error"@ {
        if key == "code"@ || key == "message"@ {
            Some(Kind::Text)
        } else {
            None
        }
    } else {
        None
    }
}

/// Whether a text is the name of a proxy type.
pub open spec fn type_named(s: Seq<char>, t: ProxyType) -> bool {
    match t {
        ProxyType::Tcp => s == "tcp"@,
        ProxyType::Udp => s == "udp"@,
        ProxyType::Http => s == "http"@,
        ProxyType::Https => s == "https"@,
    }
}

/// Whether a value stands for a proxy type: by its name, or as an object of a single
/// field with that name, which holds null or an empty object.
pub open spec fn stands_for_type(value: JsonView, member: Option<Fields>, t: ProxyType) -> bool {
    ||| (value matches JsonView::Text(s) && type_named(s, t))
    ||| (value is Object && (member matches Some(m) && m.len() == 1 && type_named(m[0].0, t) && (
    m[0].1 is Null || m[0].1 == JsonView::Object(0))))
}

/// Whether a field of some kind can have a value.
pub open spec fn fits(kind: Kind, value: JsonView, member: Option<Fields>) -> bool {
    match kind {
        Kind::Text => value is Text,
        Kind::OptionalText => value is Text || value is Null,
        Kind::Truth => value is Bool,
        Kind::Number => value matches JsonView::Integer(n) && 0 <= n <= u64::MAX,
        Kind::Stamp => value matches JsonView::Integer(n) && i64::MIN <= n <= i64::MAX,
        Kind::OptionalPort => value is Null || (value matches JsonView::Integer(n) && 0 <= n
            <= 65535),
        Kind::Type => exists|t: ProxyType| #[trigger] stands_for_type(value, member, t),
    }
}

/// The complaint about an integer that is out of range, or about something that is no
/// integer.
pub open spec fn number_complaint(value: JsonView, expected: Seq<char>) -> Seq<char> {
    if value is Integer {
        complaint("invalid value: "@, value, expected)
    } else {
        complaint("invalid type: "@, value, expected)
    }
}

/// What is said of a name that is that of no proxy type.
pub open spec fn no_such_type(s: Seq<char>) -> Seq<char> {
    "unknown variant `"@ + s + "`, expected one of `tcp`, `udp`, `http`, `https`"@
}

/// What is said of a value that a field of some kind cannot have.
pub open spec fn objection_to(kind: Kind, value: JsonView, member: Option<Fields>) -> Seq<char> {
    match kind {
        Kind::Text => complaint("invalid type: "@, value, "a string"@),
        Kind::OptionalText => complaint("invalid type: "@, value, "a string"@),
        Kind::Truth => complaint("invalid type: "@, value, "a boolean"@),
        Kind::Number => number_complaint(value, "u64"@),
        Kind::Stamp => number_complaint(value, "i64"@),
        Kind::OptionalPort => number_complaint(value, "u16"@),
        Kind::Type => match value {
            JsonView::Text(s) => no_such_type(s),
            JsonView::Object(_) => if member matches Some(m) && m.len() == 1 {
                let (name, inner) = (member->0)[0];
                if exists|t: ProxyType| #[trigger] type_named(name, t) {
                    complaint("invalid type: "@, inner, "unit"@)
                } else {
                    no_such_type(name)
                }
            } else {
                complaint("invalid value: "@, value, "map with a single key"@)
            },
            _ => complaint("invalid type: "@, value, "string or map"@),
        },
    }
}

/// The fields that messages of a type must have, in the order of their declaration.
pub open spec fn needed(tag: Seq<char>) -> Seq<Seq<char>> {
    if tag == "hello"@ {
        seq!["version"@, "token"@]
    } else if tag == "hello_ack"@ {
        seq!["version"@, "session_id"@]
    } else if tag == "register_proxy"@ {
        seq!["name"@, "proxy_type"@, "local_addr"@]
    } else if tag == "register_proxy_ack"@ {
        seq!["name"@, "ok"@]
    } else if tag == "new_connection"@ || tag == "conn_init"@ {
        seq!["conn_id"@, "proxy_name"@]
    } else if tag == "ping"@ || tag == "pong"@ {
        seq!["ts"@]
    } else {
        seq!["code"@, "message"@]
    }
}

/// Whether the value of the field at `i` is one that messages of this type cannot have.
pub open spec fn misfits(tag: Seq<char>, f: Fields, member: Option<Fields>, i: int) -> bool {
    kind_of(tag, f[i].0) matches Some(kind) && !fits(kind, f[i].1, member)
}

/// Whether a text field holds this text.
pub open spec fn has_text(f: Fields, key: Seq<char>, s: Seq<char>) -> bool {
    stands(f, key, Some(JsonView::Text(s)))
}

/// Whether an optional text field holds this text; without one, whether it is absent or
/// null.
pub open spec fn has_opt_text(f: Fields, key: Seq<char>, s: Option<Seq<char>>) -> bool {
    match s {
        Some(t) => stands(f, key, Some(JsonView::Text(t))),
        None => stands(f, key, None) || stands(f, key, Some(JsonView::Null)),
    }
}

/// Whether an integer field holds this number.
pub open spec fn has_int(f: Fields, key: Seq<char>, n: int) -> bool {
    stands(f, key, Some(JsonView::Integer(n)))
}

/// Whether fields hold this message.
pub open spec fn hold(f: Fields, member: Option<Fields>, m: MessageView) -> bool {
    match m {
        MessageView::Hello { version, token, hostname } => has_text(f, "type"@, "hello"@)
            && has_text(f, "version"@, version) && has_text(f, "token"@, token) && has_opt_text(
            f,
            "hostname"@,
            hostname,
        ),
        MessageView::HelloAck { version, session_id } => has_text(f, "type"@, "hello_ack"@)
            && has_text(f, "version"@, version) && has_text(f, "session_id"@, session_id),
        MessageView::RegisterProxy { name, proxy_type, local_addr, remote_port, vhost } => {
            &&& has_text(f, "type"@, "register_proxy"@)
            &&& has_text(f, "name"@, name)
            &&& exists|v: JsonView| #[trigger]
                stands(f, "proxy_type"@, Some(v)) && stands_for_type(v, member, proxy_type)
            &&& has_text(f, "local_addr"@, local_addr)
            &&& match remote_port {
                Some(port) => has_int(f, "remote_port"@, port as int),
                None => stands(f, "remote_port"@, None) || stands(
                    f,
                    "remote_port"@,
                    Some(JsonView::Null),
                ),
            }
            &&& has_opt_text(f, "vhost"@, vhost)
        },
        MessageView::RegisterProxyAck { name, ok, error } => has_text(
            f,
            "type"@,
            "register_proxy_ack"@,
        ) && has_text(f, "name"@, name) && stands(f, "ok"@, Some(JsonView::Bool(ok)))
            && has_opt_text(f, "error"@, error),
        MessageView::NewConnection { conn_id, proxy_name } => has_text(
            f,
            "type"@,
            "new_connection"@,
        ) && has_int(f, "conn_id"@, conn_id as int) && has_text(f, "proxy_name"@, proxy_name),
        MessageView::ConnInit { conn_id, proxy_name } => has_text(f, "type"@, "conn_init"@)
            && has_int(f, "conn_id"@, conn_id as int) && has_text(f, "proxy_name"@, proxy_name),
        MessageView::Ping { ts } => has_text(f, "type"@, "ping"@) && has_int(f, "ts"@, ts as int),
        MessageView::Pong { ts } => has_text(f, "type"@, "pong"@) && has_int(f, "ts"@, ts as int),
        MessageView::Error { code, message } => has_text(f, "type"@, "error"@) && has_text(
            f,
            "code"@,
            code,
        ) && has_text(f, "message"@, message),
    }
}

/// Whether a text names a type of message.
pub open spec fn is_type(tag: Seq<char>) -> bool {
    seq![
        "hello"@,
        "hello_ack"@,
        "register_proxy"@,
        "register_proxy_ack"@,
        "new_connection"@,
        "conn_init"@,
        "ping"@,
        "pong"@,
        "error"@,
    ].contains(tag)
}

/// Whether an object is rightly read. A message comes out exactly if the object has a
/// known type, each field of that type has a value that it can have, and no field that
/// is needed is absent; it is the one that the fields hold. Of several faults the first
/// of these counts: no type, an unknown type, the first value that does not fit, the
/// first field that is needed and absent.
pub open spec fn rightly_read(
    f: Fields,
    member: Option<Fields>,
    r: Result<MessageView, ParseErrorView>,
) -> bool {
    match r {
        Ok(m) => hold(f, member, m) && (forall|tag: Seq<char>, i: int|
            has_text(f, "type"@, tag) && 0 <= i < f.len() ==> !(#[trigger] misfits(
                tag,
                f,
                member,
                i,
            ))),
        Err(ParseErrorView::Json(_)) => false,
        Err(ParseErrorView::MissingType) => forall|tag: Seq<char>| !(#[trigger] has_text(
            f,
            "type"@,
            tag,
        )),
        Err(ParseErrorView::UnknownType(tag)) => has_text(f, "type"@, tag) && !is_type(tag),
        Err(ParseErrorView::InvalidField { field, reason }) => exists|tag: Seq<char>, i: int|
            has_text(f, "type"@, tag) && 0 <= i < f.len() && #[trigger] misfits(tag, f, member, i)
                && field == f[i].0 && reason == objection_to(
                kind_of(tag, f[i].0)->0,
                f[i].1,
                member,
            ) && (forall|j: int| 0 <= j < i ==> !(#[trigger] misfits(tag, f, member, j))),
        Err(ParseErrorView::MissingField(field)) => exists|tag: Seq<char>, k: int|
            #![trigger has_text(f, "type"@, tag), needed(tag)[k]]
            has_text(f, "type"@, tag) && is_type(tag) && (forall|i: int|
                0 <= i < f.len() ==> !(#[trigger] misfits(tag, f, member, i))) && 0 <= k
                < needed(tag).len() && needed(tag)[k] == field && stands(f, field, None) && (forall|
                j: int,
            |
                0 <= j < k ==> !stands(f, #[trigger] needed(tag)[j], None)),
    }
}

proof fn lemma_is_type(tag: Seq<char>)
    ensures
        is_type(tag) == known_type(tag),
{
    let all = seq![
        "hello"@,
        "hello_ack"@,
        "register_proxy"@,
        "register_proxy_ack"@,
        "new_connection"@,
        "conn_init"@,
        "ping"@,
        "pong"@,
        "error"@,
    ];
    assert(all[0] == "hello"@ && all[1] == "hello_ack"@ && all[2] == "register_proxy"@ && all[3]
        == "register_proxy_ack"@ && all[4] == "new_connection"@ && all[5] == "conn_init"@ && all[6]
        == "ping"@ && all[7] == "pong"@ && all[8] == "error"@);
}

proof fn lemma_type(value: JsonView, member: Option<Fields>)
    ensures
        match denoted_type(value, member) {
            Some(t) => stands_for_type(value, member, t),
            None => forall|t: ProxyType| !(#[trigger] stands_for_type(value, member, t)),
        },
        forall|s: Seq<char>|
            #![trigger names_type(s)]
            names_type(s) <==> exists|t: ProxyType| #[trigger] type_named(s, t),
{
    assert forall|s: Seq<char>|
        #![trigger names_type(s)]
        names_type(s) implies exists|t: ProxyType| #[trigger] type_named(s, t) by {
        if s == "tcp"@ {
            assert(type_named(s, ProxyType::Tcp));
        } else if s == "udp"@ {
            assert(type_named(s, ProxyType::Udp));
        } else if s == "http"@ {
            assert(type_named(s, ProxyType::Http));
        } else {
            assert(type_named(s, ProxyType::Https));
        }
    }
}

/// The names of fields with special values are different texts, and none is that of a
/// field that holds a text.
proof fn lemma_keys(key: Seq<char>)
    ensures
        key == "version"@ || key == "token"@ || key == "session_id"@ || key == "name"@ || key
            == "local_addr"@ || key == "proxy_name"@ || key == "code"@ || key == "message"@ ==> key
            != "proxy_type"@ && key != "hostname"@ && key != "vhost"@ && key != "error"@ && key
            != "remote_port"@ && key != "ok"@ && key != "ts"@ && key != "conn_id"@,
        "hostname"@ != "proxy_type"@,
        "vhost"@ != "proxy_type"@,
        "error"@ != "proxy_type"@,
        "remote_port"@ != "proxy_type"@,
        "remote_port"@ != "hostname"@,
        "remote_port"@ != "vhost"@,
        "remote_port"@ != "error"@,
        "ok"@ != "proxy_type"@,
        "ok"@ != "hostname"@,
        "ok"@ != "vhost"@,
        "ok"@ != "error"@,
        "ok"@ != "remote_port"@,
        "ts"@ != "proxy_type"@,
        "ts"@ != "hostname"@,
        "ts"@ != "vhost"@,
        "ts"@ != "error"@,
        "ts"@ != "remote_port"@,
        "ts"@ != "ok"@,
        "conn_id"@ != "proxy_type"@,
        "conn_id"@ != "hostname"@,
        "conn_id"@ != "vhost"@,
        "conn_id"@ != "error"@,
        "conn_id"@ != "remote_port"@,
        "conn_id"@ != "ok"@,
        "conn_id"@ != "ts"@,
{
    reveal_strlit("version");
    assert("version"@.len() == 7);
    reveal_strlit("token");
    assert("token"@.len() == 5);
    reveal_strlit("session_id");
    assert("session_id"@.len() == 10);
    reveal_strlit("name");
    assert("name"@.len() == 4);
    reveal_strlit("local_addr");
    assert("local_addr"@.len() == 10);
    reveal_strlit("proxy_name");
    assert("proxy_name"@.len() == 10);
    reveal_strlit("code");
    assert("code"@.len() == 4);
    reveal_strlit("message");
    assert("message"@.len() == 7);
    reveal_strlit("proxy_type");
    assert("proxy_type"@.len() == 10);
    reveal_strlit("hostname");
    assert("hostname"@.len() == 8);
    reveal_strlit("vhost");
    assert("vhost"@.len() == 5);
    reveal_strlit("error");
    assert("error"@.len() == 5);
    reveal_strlit("remote_port");
    assert("remote_port"@.len() == 11);
    reveal_strlit("ok");
    assert("ok"@.len() == 2);
    reveal_strlit("ts");
    assert("ts"@.len() == 2);
    reveal_strlit("conn_id");
    assert("conn_id"@.len() == 7);
    assert("version"@[0] != "conn_id"@[0]);
    assert("message"@[0] != "conn_id"@[0]);
    assert("token"@[0] != "vhost"@[0]);
    assert("token"@[0] != "error"@[0]);
    assert("session_id"@[0] != "proxy_type"@[0]);
    assert("local_addr"@[0] != "proxy_type"@[0]);
    assert("proxy_name"@[6] != "proxy_type"@[6]);
    assert("ok"@[0] != "ts"@[0]);
}

proof fn lemma_kind(tag: Seq<char>, key: Seq<char>, value: JsonView, member: Option<Fields>)
    ensures
        has_field(tag, key) <==> kind_of(tag, key) is Some,
        kind_of(tag, key) matches Some(kind) ==> match field_fault(key, value, member) {
            None => fits(kind, value, member),
            Some(reason) => !fits(kind, value, member) && reason == objection_to(
                kind,
                value,
                member,
            ),
        },
{
    lemma_keys(key);
    lemma_type(value, member);
}

proof fn lemma_first_misfit(tag: Seq<char>, f: Fields, member: Option<Fields>)
    ensures
        match first_fault(tag, f, member) {
            Some((field, reason)) => exists|i: int|
                0 <= i < f.len() && #[trigger] misfits(tag, f, member, i) && field == f[i].0
                    && reason == objection_to(kind_of(tag, f[i].0)->0, f[i].1, member) && (forall|
                    j: int,
                |
                    0 <= j < i ==> !(#[trigger] misfits(tag, f, member, j))),
            None => forall|i: int| 0 <= i < f.len() ==> !(#[trigger] misfits(tag, f, member, i)),
        },
    decreases f.len(),
{
    if f.len() > 0 {
        lemma_kind(tag, f[0].0, f[0].1, member);
        if misfits(tag, f, member, 0) {
            assert(misfits(tag, f, member, 0));
        } else {
            let rest = f.drop_first();
            lemma_first_misfit(tag, rest, member);
            assert forall|j: int| 0 <= j < rest.len() implies #[trigger] misfits(
                tag,
                rest,
                member,
                j,
            ) == misfits(tag, f, member, j + 1) by {
                assert(rest[j] == f[j + 1]);
            }
            if let Some((field, reason)) = first_fault(tag, rest, member) {
                let i = choose|i: int|
                    0 <= i < rest.len() && #[trigger] misfits(tag, rest, member, i) && field
                        == rest[i].0 && reason == objection_to(
                        kind_of(tag, rest[i].0)->0,
                        rest[i].1,
                        member,
                    ) && (forall|j: int|
                        0 <= j < i ==> !(#[trigger] misfits(tag, rest, member, j)));
                assert(misfits(tag, f, member, i + 1));
                assert forall|j: int| 0 <= j < i + 1 implies !(#[trigger] misfits(
                    tag,
                    f,
                    member,
                    j,
                )) by {
                    if j > 0 {
                        assert(!misfits(tag, rest, member, j - 1));
                    }
                }
            } else {
                assert forall|i: int| 0 <= i < f.len() implies !(#[trigger] misfits(
                    tag,
                    f,
                    member,
                    i,
                )) by {
                    if i > 0 {
                        assert(!misfits(tag, rest, member, i - 1));
                    }
                }
            }
        }
    }
}

/// What comes of fields of which none has a value that it cannot have.
proof fn lemma_assembled(tag: Seq<char>, f: Fields, member: Option<Fields>)
    requires
        has_text(f, "type"@, tag),
        lookup(f, "type"@) == Some(JsonView::Text(tag)),
        first_fault(tag, f, member) is None,
        known_type(tag),
    ensures
        match assembled(tag, f, member) {
            Ok(m) => hold(f, member, m),
            Err(ParseErrorView::MissingField(field)) => exists|k: int|
                0 <= k < needed(tag).len() && #[trigger] needed(tag)[k] == field && stands(
                    f,
                    field,
                    None,
                ) && (forall|j: int| 0 <= j < k ==> !stands(f, #[trigger] needed(tag)[j], None)),
            Err(_) => false,
        },
{
    lemma_first_misfit(tag, f, member);
    assert forall|key: Seq<char>| stands(f, key, #[trigger] lookup(f, key)) && (
    lookup(f, key) is Some ==> !stands(f, key, None)) by {
        lemma_stands(f, key);
    }
    assert forall|key: Seq<char>|
        (#[trigger] lookup(f, key)) matches Some(v) ==> (kind_of(tag, key) matches Some(kind)
            ==> fits(kind, v, member)) by {
        if let Some(v) = lookup(f, key) {
            let i = choose|i: int| 0 <= i < f.len() && #[trigger] f[i] == (key, v);
            assert(!misfits(tag, f, member, i));
        }
    }
    lemma_keys("name"@);
    lemma_keys("local_addr"@);
    lemma_keys("proxy_name"@);
    if let Some(v) = lookup(f, "proxy_type"@) {
        lemma_type(v, member);
    }
    let n = needed(tag);
    if n.len() > 0 && lookup(f, n[0]) is None {
        assert(stands(f, n[0], None));
    } else if n.len() > 1 && lookup(f, n[1]) is None {
        assert(stands(f, n[1], None));
    } else if n.len() > 2 && lookup(f, n[2]) is None {
        assert(stands(f, n[2], None));
    }
}

pub(crate) proof fn lemma_rightly_read(f: Fields, member: Option<Fields>)
    ensures
        rightly_read(f, member, decoded(f, member)),
{
    lemma_stands(f, "type"@);
    match lookup(f, "type"@) {
        Some(JsonView::Text(tag)) => {
            lemma_is_type(tag);
            lemma_first_misfit(tag, f, member);
            assert(has_text(f, "type"@, tag));
            assert forall|other: Seq<char>| #[trigger] has_text(f, "type"@, other) implies other
                == tag by {}
            if first_fault(tag, f, member) is None {
                if known_type(tag) {
                    lemma_assembled(tag, f, member);
                    if let Err(ParseErrorView::MissingField(field)) = assembled(tag, f, member) {
                        let k = choose|k: int|
                            0 <= k < needed(tag).len() && #[trigger] needed(tag)[k] == field
                                && stands(f, field, None) && (forall|j: int|
                                0 <= j < k ==> !stands(f, #[trigger] needed(tag)[j], None));
                        assert(needed(tag)[k] == field);
                    }
                }
            }
        },
        _ => {
            assert forall|tag: Seq<char>| !(#[trigger] has_text(f, "type"@, tag)) by {}
        },
    }
}

/// Whether a result of reading has this content.
pub open spec fn content(r: Result<Message, ParseError>) -> Result<MessageView, ParseErrorView> {
    match r {
        Ok(m) => Ok(m@),
        Err(e) => Err(e@),
    }
}

/// The fields of an object are read as they should be.
pub proof fn law_from_fields(
    fields: &Vec<(String, Json)>,
    member: &Option<Vec<(String, Json)>>,
    r: Result<Message, ParseError>,
)
    requires
        call_ensures(Message::from_fields, (fields, member), r),
    ensures
        rightly_read(
            Seq::new(fields@.len(), |i: int| (fields@[i].0@, fields@[i].1@)),
            match member {
                Some(m) => Some(Seq::new(m@.len(), |i: int| (m@[i].0@, m@[i].1@))),
                None => None,
            },
            content(r),
        ),
{
    lemma_rightly_read(fields_view(fields@), member_view(*member));
    assert(fields_view(fields@) =~= Seq::new(
        fields@.len(),
        |i: int| (fields@[i].0@, fields@[i].1@),
    ));
    if let Some(m) = member {
        assert(fields_view(m@) =~= Seq::new(m@.len(), |i: int| (m@[i].0@, m@[i].1@)));
    }
}

/// A payload is read as the object that it holds; what is no JSON, or no object, is
/// refused.
pub proof fn law_parse(payload: &[u8], r: Result<Message, ParseError>)
    requires
        call_ensures(Message::parse, (payload,), r),
    ensures
        match json_read(payload@) {
            Err(reason) => r matches Err(ParseError::Json(text)) && text@ == reason,
            Ok(None) => r matches Err(e) && e is MissingType,
            Ok(Some(f)) => rightly_read(f, json_member(payload@, "proxy_type"@), content(r)),
        },
{
    if let Ok(Some(f)) = json_read(payload@) {
        lemma_rightly_read(f, json_member(payload@, "proxy_type"@));
    }
}

/// What was encoded parses to the same message.
pub proof fn law_encoded_parses(
    m: &Message,
    payload: Vec<u8>,
    received: &[u8],
    r: Result<Message, ParseError>,
)
    requires
        call_ensures(Message::encode, (m,), payload),
        received@ == payload@,
        call_ensures(Message::parse, (received,), r),
    ensures
        r matches Ok(n) && n@ == m@,
{
}

// Writing.

/// Whether a field has this name and this value.
pub open spec fn is_field(f: (String, Json), key: Seq<char>, value: JsonView) -> bool {
    f.0@ == key && f.1@ == value
}

/// Whether fields end with an optional text after the first `n`: there is a last one if
/// there is a text, and none otherwise.
pub open spec fn ends_with(
    fields: Seq<(String, Json)>,
    n: int,
    key: Seq<char>,
    text: Option<String>,
) -> bool {
    match text {
        Some(s) => fields.len() == n + 1 && is_field(fields[n], key, JsonView::Text(s@)),
        None => fields.len() == n,
    }
}

/// A message is written as its type and its fields, in the order of their declaration;
/// what is optional and absent is not written.
pub proof fn law_to_fields(m: &Message, fields: Vec<(String, Json)>)
    requires
        call_ensures(Message::to_fields, (m,), fields),
    ensures
        match m {
            Message::Hello { version, token, hostname } => {
                &&& is_field(fields@[0], "type"@, JsonView::Text("hello"@))
                &&& is_field(fields@[1], "version"@, JsonView::Text(version@))
                &&& is_field(fields@[2], "token"@, JsonView::Text(token@))
                &&& ends_with(fields@, 3, "hostname"@, *hostname)
            },
            Message::HelloAck { version, session_id } => {
                &&& fields@.len() == 3
                &&& is_field(fields@[0], "type"@, JsonView::Text("hello_ack"@))
                &&& is_field(fields@[1], "version"@, JsonView::Text(version@))
                &&& is_field(fields@[2], "session_id"@, JsonView::Text(session_id@))
            },
            Message::RegisterProxy { name, proxy_type, local_addr, remote_port, vhost } => {
                &&& is_field(fields@[0], "type"@, JsonView::Text("register_proxy"@))
                &&& is_field(fields@[1], "name"@, JsonView::Text(name@))
                &&& fields@[2].0@ == "proxy_type"@
                &&& fields@[2].1@ matches JsonView::Text(t) && type_named(t, *proxy_type)
                &&& is_field(fields@[3], "local_addr"@, JsonView::Text(local_addr@))
                &&& match remote_port {
                    Some(port) => is_field(
                        fields@[4],
                        "remote_port"@,
                        JsonView::Integer(*port as int),
                    ) && ends_with(fields@, 5, "vhost"@, *vhost),
                    None => ends_with(fields@, 4, "vhost"@, *vhost),
                }
            },
            Message::RegisterProxyAck { name, ok, error } => {
                &&& is_field(fields@[0], "type"@, JsonView::Text("register_proxy_ack"@))
                &&& is_field(fields@[1], "name"@, JsonView::Text(name@))
                &&& is_field(fields@[2], "ok"@, JsonView::Bool(*ok))
                &&& ends_with(fields@, 3, "error"@, *error)
            },
            Message::NewConnection { conn_id, proxy_name } => {
                &&& fields@.len() == 3
                &&& is_field(fields@[0], "type"@, JsonView::Text("new_connection"@))
                &&& is_field(fields@[1], "conn_id"@, JsonView::Integer(*conn_id as int))
                &&& is_field(fields@[2], "proxy_name"@, JsonView::Text(proxy_name@))
            },
            Message::ConnInit { conn_id, proxy_name } => {
                &&& fields@.len() == 3
                &&& is_field(fields@[0], "type"@, JsonView::Text("conn_init"@))
                &&& is_field(fields@[1], "conn_id"@, JsonView::Integer(*conn_id as int))
                &&& is_field(fields@[2], "proxy_name"@, JsonView::Text(proxy_name@))
            },
            Message::Ping { ts } => {
                &&& fields@.len() == 2
                &&& is_field(fields@[0], "type"@, JsonView::Text("ping"@))
                &&& is_field(fields@[1], "ts"@, JsonView::Integer(*ts as int))
            },
            Message::Pong { ts } => {
                &&& fields@.len() == 2
                &&& is_field(fields@[0], "type"@, JsonView::Text("pong"@))
                &&& is_field(fields@[1], "ts"@, JsonView::Integer(*ts as int))
            },
            Message::Error { code, message } => {
                &&& fields@.len() == 3
                &&& is_field(fields@[0], "type"@, JsonView::Text("error"@))
                &&& is_field(fields@[1], "code"@, JsonView::Text(code@))
                &&& is_field(fields@[2], "message"@, JsonView::Text(message@))
            },
        },
{
    let f = fields_view(fields@);
    assert(f.len() == fields@.len());
    assert forall|i: int| 0 <= i < fields@.len() implies f[i] == (
        (#[trigger] fields@[i]).0@,
        fields@[i].1@,
    ) by {}
}

/// The encoded message is the JSON text of the fields that the message is written as.
pub proof fn law_encode(m: &Message, fields: Vec<(String, Json)>, payload: Vec<u8>)
    requires
        call_ensures(Message::to_fields, (m,), fields),
        call_ensures(Message::encode, (m,), payload),
    ensures
        json_read(payload@) == Ok::<Option<Fields>, Seq<char>>(
            Some(Seq::new(fields@.len(), |i: int| (fields@[i].0@, fields@[i].1@))),
        ),
{
    assert(fields_view(fields@) =~= Seq::new(
        fields@.len(),
        |i: int| (fields@[i].0@, fields@[i].1@),
    ));
}

/// The name of a proxy type.
pub proof fn law_type_name(t: ProxyType, name: String)
    requires
        call_ensures(ProxyType::name, (t,), name),
    ensures
        type_named(name@, t),
{
}

/// A version is compatible exactly if its major number is 1.
pub proof fn law_version_compatible(their: &str, yes: bool)
    requires
        call_ensures(version_compatible, (their,), yes),
    ensures
        yes == major_one(their@),
{
    law_compatible_versions(their@);
}

/// The content of an error is all that it holds.
pub proof fn law_parse_error_content(a: ParseError, b: ParseError)
    requires
        a@ == b@,
    ensures
        match a {
            ParseError::Json(text) => b matches ParseError::Json(t) && t@ == text@,
            ParseError::MissingType => b is MissingType,
            ParseError::UnknownType(tag) => b matches ParseError::UnknownType(t) && t@ == tag@,
            ParseError::MissingField(field) => b matches ParseError::MissingField(f) && f@
                == field@,
            ParseError::InvalidField { field, reason } => b matches ParseError::InvalidField {
                field: f,
                reason: r,
            } && f@ == field@ && r@ == reason@,
        },
{
}

} // verus!
