//! Tunnels on the client: which local service a user connection is for.
use crate::client::config::{law_sound_names_differ, sound_before, ProxyConfig};
use crate::msg::{parsed, Message, MessageView, ParseError, ParseErrorView};
use vstd::prelude::*;

verus! {

/// The address of the local service behind a proxy name. If several proxies have
/// the name, it is that of the last.
pub open spec fn local_addr_of(proxies: Seq<ProxyConfig>, name: Seq<char>) -> Option<Seq<char>>
    decreases proxies.len(),
{
    if proxies.len() == 0 {
        None
    } else if proxies.last().name@ == name {
        Some(proxies.last().local_addr@)
    } else {
        local_addr_of(proxies.drop_last(), name)
    }
}

/// Finds the address of the local service behind a proxy name.
pub fn find_local_addr(proxies: &Vec<ProxyConfig>, name: &String) -> (addr: Option<String>)
    ensures
        match addr {
            Some(a) => local_addr_of(proxies@, name@) == Some(a@),
            None => local_addr_of(proxies@, name@) is None,
        },
{
    let mut n: usize = proxies.len();
    assert(proxies@.take(n as int) =~= proxies@);
    while n > 0
        invariant
            n <= proxies@.len(),
            local_addr_of(proxies@, name@) == local_addr_of(proxies@.take(n as int), name@),
        decreases n,
    {
        assert(proxies@.take(n as int).last() == proxies@[n - 1]);
        assert(proxies@.take(n as int).drop_last() =~= proxies@.take(n - 1));
        let p = &proxies[n - 1];
        if p.name == *name {
            return Some(p.local_addr.clone());
        }
        n = n - 1;
    }
    None
}

/// In a sound configuration the name of each proxy leads to its local service.
pub proof fn law_each_proxy_is_found(proxies: Seq<ProxyConfig>, i: int)
    requires
        sound_before(proxies, proxies.len() as int),
        0 <= i < proxies.len(),
    ensures
        local_addr_of(proxies, proxies[i].name@) == Some(proxies[i].local_addr@),
{
    lemma_found_below(proxies, i, proxies.len() as int);
}

/// The name of a proxy leads to its local service in every list that ends after it.
proof fn lemma_found_below(proxies: Seq<ProxyConfig>, i: int, n: int)
    requires
        sound_before(proxies, proxies.len() as int),
        0 <= i < n <= proxies.len(),
    ensures
        local_addr_of(proxies.take(n), proxies[i].name@) == Some(proxies[i].local_addr@),
        proxies.take(proxies.len() as int) == proxies,
    decreases n,
{
    assert(proxies.take(proxies.len() as int) =~= proxies);
    assert(proxies.take(n).last() == proxies[n - 1]);
    assert(proxies.take(n).drop_last() =~= proxies.take(n - 1));
    if i < n - 1 {
        law_sound_names_differ(proxies, i, n - 1);
        lemma_found_below(proxies, i, n - 1);
    }
}

/// A tunnel that the client opens.
#[derive(Debug, Clone)]
pub struct TunnelPlan {
    /// The first frame for the server.
    pub init: Message,
    /// The local service to connect to the tunnel.
    pub local_addr: String,
}

/// Plans the tunnel for a user connection; there is none if no proxy has the
/// name.
pub fn handle_new_conn(proxies: &Vec<ProxyConfig>, conn_id: u64, proxy_name: String) -> (plan:
    Option<TunnelPlan>)
    ensures
        match plan {
            Some(p) => p.init@ == (MessageView::ConnInit { conn_id, proxy_name: proxy_name@ })
                && local_addr_of(proxies@, proxy_name@) == Some(p.local_addr@),
            None => local_addr_of(proxies@, proxy_name@) is None,
        },
{
    match find_local_addr(proxies, &proxy_name) {
        Some(local_addr) => Some(
            TunnelPlan { init: Message::ConnInit { conn_id, proxy_name }, local_addr },
        ),
        None => None,
    }
}

/// What a stream that the server opened is for.
#[derive(Debug, Clone, PartialEq)]
pub enum DataStream {
    /// The tunnel of a user connection to this local service.
    Bridge { conn_id: u64, local_addr: String },
    /// A tunnel for a proxy that the client does not have.
    NoSuchProxy { conn_id: u64 },
    /// Its first frame is not `conn_init`.
    Unexpected,
}

/// The mathematical content of a [`DataStream`].
pub enum DataStreamView {
    Bridge { conn_id: u64, local_addr: Seq<char> },
    NoSuchProxy { conn_id: u64 },
    Unexpected,
}

impl View for DataStream {
    type V = DataStreamView;

    open spec fn view(&self) -> DataStreamView {
        match self {
            DataStream::Bridge { conn_id, local_addr } => DataStreamView::Bridge {
                conn_id: *conn_id,
                local_addr: local_addr@,
            },
            DataStream::NoSuchProxy { conn_id } => DataStreamView::NoSuchProxy {
                conn_id: *conn_id,
            },
            DataStream::Unexpected => DataStreamView::Unexpected,
        }
    }
}

/// What a stream is for, by its parsed first frame.
pub open spec fn data_stream_of(
    proxies: Seq<ProxyConfig>,
    first: Result<MessageView, ParseErrorView>,
) -> DataStreamView {
    match first {
        Ok(MessageView::ConnInit { conn_id, proxy_name }) => match local_addr_of(
            proxies,
            proxy_name,
        ) {
            Some(local_addr) => DataStreamView::Bridge { conn_id, local_addr },
            None => DataStreamView::NoSuchProxy { conn_id },
        },
        _ => DataStreamView::Unexpected,
    }
}

/// Decides what a stream is for by its parsed first frame.
pub fn classify_stream(proxies: &Vec<ProxyConfig>, first: Result<Message, ParseError>) -> (d:
    DataStream)
    ensures
        match first {
            Ok(m) => d@ == data_stream_of(proxies@, Ok(m@)),
            Err(e) => d@ == data_stream_of(proxies@, Err(e@)),
        },
{
    match first {
        Ok(Message::ConnInit { conn_id, proxy_name }) => match find_local_addr(
            proxies,
            &proxy_name,
        ) {
            Some(local_addr) => DataStream::Bridge { conn_id, local_addr },
            None => DataStream::NoSuchProxy { conn_id },
        },
        _ => DataStream::Unexpected,
    }
}

/// Decides what a stream is for by the payload of its first frame.
pub fn handle_quic_data(proxies: &Vec<ProxyConfig>, payload: &[u8]) -> (d: DataStream)
    ensures
        d@ == data_stream_of(proxies@, parsed(payload@)),
{
    classify_stream(proxies, Message::parse(payload))
}

} // verus!
