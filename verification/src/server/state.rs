//! State of the server: registered proxies and user connections that wait for
//! their tunnel.
use crate::msg::ProxyType;
use crate::server::auth::{
    authorize_port, authorize_vhost, identity_of, may_use_port, may_use_vhost, port_refusal,
    vhost_refusal, AuthPolicy, AuthPolicyView, Identity, IdentityView,
};
use crate::text::{decimal, push_decimal, same_text};
use std::collections::HashMap;
use vstd::prelude::*;

verus! {

broadcast use vstd::std_specs::hash::group_hash_axioms;

/// How the data of user connections travels.
#[derive(Debug, Clone, Copy, PartialEq, Eq, Structural)]
pub enum DataTransport {
    /// A connection that the client opens for every user connection.
    Tcp,
    /// A stream that the server opens on the client's QUIC connection.
    Quic,
}

/// A proxy that a session registered.
#[derive(Debug, Clone, PartialEq)]
pub struct RegisteredProxy {
    pub name: String,
    pub port: u16,
}

/// An authenticated control connection.
#[derive(Debug, Clone)]
pub struct SessionHandle {
    pub id: String,
    pub identity: Identity,
    pub data: DataTransport,
    /// What this session registered, to be given back at its end.
    pub registered: Vec<RegisteredProxy>,
}

/// The mathematical content of a [`SessionHandle`].
pub struct SessionView {
    pub id: Seq<char>,
    pub identity: IdentityView,
    pub data: DataTransport,
    pub registered: Seq<(Seq<char>, u16)>,
}

/// The content of a list of proxies.
pub open spec fn proxies_view(list: Seq<RegisteredProxy>) -> Seq<(Seq<char>, u16)> {
    list.map_values(|p: RegisteredProxy| (p.name@, p.port))
}

impl View for SessionHandle {
    type V = SessionView;

    open spec fn view(&self) -> SessionView {
        SessionView {
            id: self.id@,
            identity: self.identity@,
            data: self.data,
            registered: proxies_view(self.registered@),
        }
    }
}

/// The table that a list of entries stands for; a later entry replaces an
/// earlier one of the same name.
pub open spec fn name_table(list: Seq<(String, String)>) -> Map<Seq<char>, Seq<char>>
    decreases list.len(),
{
    if list.len() == 0 {
        Map::empty()
    } else {
        name_table(list.drop_last()).insert(list.last().0@, list.last().1@)
    }
}

/// The registered proxies: the session that holds each name and each port.
pub struct Registry {
    by_name: Vec<(String, String)>,
    by_port: HashMap<u16, String>,
}

impl Registry {
    /// The session that holds each name.
    pub closed spec fn names(&self) -> Map<Seq<char>, Seq<char>> {
        name_table(self.by_name@)
    }

    /// The session that holds each port.
    pub closed spec fn ports(&self) -> Map<u16, Seq<char>> {
        self.by_port@.map_values(|s: String| s@)
    }

    /// A registry without proxies.
    pub fn new() -> (r: Registry)
        ensures
            r.names() == Map::<Seq<char>, Seq<char>>::empty(),
            r.ports() == Map::<u16, Seq<char>>::empty(),
    {
        let r = Registry { by_name: Vec::new(), by_port: HashMap::new() };
        assert(r.ports() =~= Map::empty());
        r
    }

    /// The session that holds a name.
    pub fn name_owner(&self, name: &str) -> (owner: Option<String>)
        ensures
            match owner {
                Some(id) => self.names().contains_pair(name@, id@),
                None => !self.names().contains_key(name@),
            },
    {
        let mut owner: Option<String> = None;
        let mut i: usize = 0;
        assert(self.by_name@.take(0) =~= Seq::empty());
        while i < self.by_name.len()
            invariant
                i <= self.by_name@.len(),
                match owner {
                    Some(id) => name_table(self.by_name@.take(i as int)).contains_pair(
                        name@,
                        id@,
                    ),
                    None => !name_table(self.by_name@.take(i as int)).contains_key(name@),
                },
            decreases self.by_name@.len() - i,
        {
            assert(self.by_name@.take(i + 1).drop_last() =~= self.by_name@.take(i as int));
            if same_text(self.by_name[i].0.as_str(), name) {
                owner = Some(self.by_name[i].1.clone());
            }
            i = i + 1;
        }
        assert(self.by_name@.take(self.by_name@.len() as int) =~= self.by_name@);
        owner
    }

    /// The session that holds a port.
    pub fn port_owner(&self, port: u16) -> (owner: Option<String>)
        ensures
            match owner {
                Some(id) => self.ports().contains_pair(port, id@),
                None => !self.ports().contains_key(port),
            },
    {
        match self.by_port.get(&port) {
            Some(id) => Some(id.clone()),
            None => None,
        }
    }

    /// Removes a name.
    fn remove_name(&mut self, name: &str)
        ensures
            final(self).names() == old(self).names().remove(name@),
            final(self).ports() == old(self).ports(),
    {
        let mut kept: Vec<(String, String)> = Vec::new();
        let mut i: usize = 0;
        assert(self.by_name@.take(0) =~= Seq::empty());
        assert(name_table(kept@) =~= name_table(self.by_name@.take(0)).remove(name@));
        while i < self.by_name.len()
            invariant
                i <= self.by_name@.len(),
                name_table(kept@) == name_table(self.by_name@.take(i as int)).remove(name@),
            decreases self.by_name@.len() - i,
        {
            let ghost table = name_table(self.by_name@.take(i as int));
            let ghost before = kept@;
            assert(self.by_name@.take(i + 1).drop_last() =~= self.by_name@.take(i as int));
            let key = self.by_name[i].0.clone();
            if same_text(key.as_str(), name) {
                assert(table.insert(name@, self.by_name@[i as int].1@).remove(name@)
                    =~= table.remove(name@));
            } else {
                let value = self.by_name[i].1.clone();
                assert(table.insert(key@, value@).remove(name@) =~= table.remove(name@).insert(
                    key@,
                    value@,
                ));
                kept.push((key, value));
                assert(kept@.drop_last() =~= before);
            }
            i = i + 1;
        }
        assert(self.by_name@.take(self.by_name@.len() as int) =~= self.by_name@);
        self.by_name = kept;
    }

    /// Gives a name and a port to a session.
    pub fn insert(&mut self, name: &str, port: u16, id: &String)
        ensures
            final(self).names() == old(self).names().insert(name@, id@),
            final(self).ports() == old(self).ports().insert(port, id@),
    {
        self.remove_name(name);
        let ghost list = self.by_name@;
        self.by_name.push((name.to_owned(), id.clone()));
        assert(self.by_name@.drop_last() =~= list);
        assert(name_table(list).insert(name@, id@) =~= old(self).names().insert(name@, id@));
        let ghost ports = self.by_port@;
        self.by_port.insert(port, id.clone());
        assert(self.ports() =~= old(self).ports().insert(port, id@));
    }

    /// Takes a name and a port back from a session, each only if the session
    /// still holds it.
    pub fn release(&mut self, name: &str, port: u16, id: &String)
        ensures
            final(self).names() == (if old(self).names().contains_pair(name@, id@) {
                old(self).names().remove(name@)
            } else {
                old(self).names()
            }),
            final(self).ports() == (if old(self).ports().contains_pair(port, id@) {
                old(self).ports().remove(port)
            } else {
                old(self).ports()
            }),
    {
        match self.name_owner(name) {
            Some(owner) => {
                if owner == *id {
                    self.remove_name(name);
                }
            },
            None => {},
        }
        match self.port_owner(port) {
            Some(owner) => {
                if owner == *id {
                    self.by_port.remove(&port);
                    assert(self.ports() =~= old(self).ports().remove(port));
                }
            },
            None => {},
        }
    }
}

/// State shared by all sessions. `T` is what hands a tunnel over to the user
/// connection that waits for it.
pub struct ServerState<T> {
    policy: AuthPolicy,
    bind_addr: String,
    next_conn_id: u64,
    registry: Registry,
    pending: HashMap<u64, T>,
}

/// The mathematical content of a [`ServerState`].
pub struct StateView<T> {
    pub policy: AuthPolicyView,
    /// Address that proxies listen on.
    pub bind_addr: Seq<char>,
    /// Number of the next user connection.
    pub next_conn_id: u64,
    /// The session that holds each proxy name.
    pub names: Map<Seq<char>, Seq<char>>,
    /// The session that holds each port.
    pub ports: Map<u16, Seq<char>>,
    /// User connections that wait for a tunnel.
    pub pending: Map<u64, T>,
}

impl<T> View for ServerState<T> {
    type V = StateView<T>;

    closed spec fn view(&self) -> StateView<T> {
        StateView {
            policy: self.policy@,
            bind_addr: self.bind_addr@,
            next_conn_id: self.next_conn_id,
            names: self.registry.names(),
            ports: self.registry.ports(),
            pending: self.pending@,
        }
    }
}

/// The number after `n`, beginning again at zero after the last.
pub open spec fn next_number(n: u64) -> u64 {
    if n == u64::MAX {
        0
    } else {
        (n + 1) as u64
    }
}

/// What speaks against registering a proxy, or the port it may listen on. The
/// first of these that applies decides: the type, a missing port, port zero, the
/// client's ports, its virtual hosts, a name in use, a port in use.
pub open spec fn registration<T>(
    state: StateView<T>,
    identity: IdentityView,
    name: Seq<char>,
    proxy_type: ProxyType,
    remote_port: Option<u16>,
    vhost: Option<Seq<char>>,
) -> Result<u16, Seq<char>> {
    if proxy_type != ProxyType::Tcp {
        Err("M1 仅支持 tcp 代理"@)
    } else {
        match remote_port {
            None => Err("tcp 代理需要 remote_port"@),
            Some(port) => if port == 0 {
                Err("remote_port 不能为 0"@)
            } else if !may_use_port(identity, port) {
                Err(port_refusal(identity, port))
            } else if vhost is Some && !may_use_vhost(identity, vhost->0) {
                Err(vhost_refusal(vhost->0))
            } else if state.names.contains_key(name) {
                Err("同名代理已存在"@)
            } else if state.ports.contains_key(port) {
                Err("端口 "@ + decimal(port as nat) + " 已被占用"@)
            } else {
                Ok(port)
            },
        }
    }
}

/// Whether a list of proxies has one of this name.
pub open spec fn lists_name(list: Seq<(Seq<char>, u16)>, name: Seq<char>) -> bool {
    exists|i: int| 0 <= i < list.len() && (#[trigger] list[i]).0 == name
}

/// Whether a list of proxies has one on this port.
pub open spec fn lists_port(list: Seq<(Seq<char>, u16)>, port: u16) -> bool {
    exists|i: int| 0 <= i < list.len() && (#[trigger] list[i]).1 == port
}

/// The names without those of the list that `id` holds.
pub open spec fn names_without(
    names: Map<Seq<char>, Seq<char>>,
    list: Seq<(Seq<char>, u16)>,
    id: Seq<char>,
) -> Map<Seq<char>, Seq<char>> {
    Map::new(
        |name: Seq<char>|
            names.contains_key(name) && !(lists_name(list, name) && names[name] == id),
        |name: Seq<char>| names[name],
    )
}

/// The ports without those of the list that `id` holds.
pub open spec fn ports_without(
    ports: Map<u16, Seq<char>>,
    list: Seq<(Seq<char>, u16)>,
    id: Seq<char>,
) -> Map<u16, Seq<char>> {
    Map::new(
        |port: u16| ports.contains_key(port) && !(lists_port(list, port) && ports[port] == id),
        |port: u16| ports[port],
    )
}

/// The state after a session registered a proxy.
pub open spec fn after_register<T>(
    state: StateView<T>,
    id: Seq<char>,
    name: Seq<char>,
    port: u16,
) -> StateView<T> {
    StateView { names: state.names.insert(name, id), ports: state.ports.insert(port, id), ..state }
}

/// The state after a session ended.
pub open spec fn after_cleanup<T>(state: StateView<T>, session: SessionView) -> StateView<T> {
    StateView {
        names: names_without(state.names, session.registered, session.id),
        ports: ports_without(state.ports, session.registered, session.id),
        ..state
    }
}

impl<T> ServerState<T> {
    /// A server without proxies. The first user connection gets number 1.
    pub fn new(policy: AuthPolicy, bind_addr: String) -> (state: ServerState<T>)
        ensures
            state@ == (StateView {
                policy: policy@,
                bind_addr: bind_addr@,
                next_conn_id: 1,
                names: Map::empty(),
                ports: Map::empty(),
                pending: Map::<u64, T>::empty(),
            }),
    {
        ServerState {
            policy,
            bind_addr,
            next_conn_id: 1,
            registry: Registry::new(),
            pending: HashMap::new(),
        }
    }

    /// The address that proxies listen on.
    pub fn bind_addr(&self) -> (addr: String)
        ensures
            addr@ == self@.bind_addr,
    {
        self.bind_addr.clone()
    }

    /// The identity of a client that presents `token`, or `None` if it is to be
    /// refused.
    pub fn authenticate(&self, token: &str) -> (identity: Option<Identity>)
        ensures
            match identity {
                Some(id) => identity_of(self@.policy, token@) == Some(id@),
                None => identity_of(self@.policy, token@) is None,
            },
    {
        self.policy.authenticate(token)
    }

    /// Takes the number for a user connection.
    pub fn next_conn_id(&mut self) -> (id: u64)
        ensures
            id == old(self)@.next_conn_id,
            final(self)@ == (StateView { next_conn_id: next_number(id), ..old(self)@ }),
    {
        let id: u64 = self.next_conn_id;
        self.next_conn_id = if id == u64::MAX {
            0
        } else {
            id + 1
        };
        id
    }

    /// Checks a request to register a proxy: the port to listen on, or what the
    /// client is told instead.
    pub fn check_registration(
        &self,
        identity: &Identity,
        name: &str,
        proxy_type: ProxyType,
        remote_port: Option<u16>,
        vhost: Option<&str>,
    ) -> (r: Result<u16, String>)
        ensures
            match r {
                Ok(port) => registration(
                    self@,
                    identity@,
                    name@,
                    proxy_type,
                    remote_port,
                    opt_str(vhost),
                ) == Ok::<u16, Seq<char>>(port),
                Err(text) => registration(
                    self@,
                    identity@,
                    name@,
                    proxy_type,
                    remote_port,
                    opt_str(vhost),
                ) == Err::<u16, Seq<char>>(text@),
            },
    {
        if proxy_type != ProxyType::Tcp {
            return Err("M1 仅支持 tcp 代理".to_owned());
        }
        let port: u16 = match remote_port {
            None => return Err("tcp 代理需要 remote_port".to_owned()),
            Some(port) => port,
        };
        if port == 0 {
            return Err("remote_port 不能为 0".to_owned());
        }
        match authorize_port(identity, port) {
            Err(text) => return Err(text),
            Ok(_) => {},
        }
        match vhost {
            Some(host) => match authorize_vhost(identity, host) {
                Err(text) => return Err(text),
                Ok(_) => {},
            },
            None => {},
        }
        if self.registry.name_owner(name).is_some() {
            return Err("同名代理已存在".to_owned());
        }
        if self.registry.port_owner(port).is_some() {
            let mut text = "端口 ".to_owned();
            push_decimal(&mut text, port as u128);
            text.append(" 已被占用");
            return Err(text);
        }
        Ok(port)
    }

    /// Enters a proxy of a session, once the server listens on its port.
    pub fn register(&mut self, session: &mut SessionHandle, name: &str, port: u16)
        ensures
            final(self)@ == after_register(old(self)@, old(session)@.id, name@, port),
            final(session)@ == (SessionView {
                registered: old(session)@.registered.push((name@, port)),
                ..old(session)@
            }),
    {
        self.registry.insert(name, port, &session.id);
        session.registered.push(RegisteredProxy { name: name.to_owned(), port });
        assert(proxies_view(session.registered@) =~= proxies_view(old(session).registered@).push(
            (name@, port),
        ));
    }

    /// Ends a session: gives back what it registered and still holds. Returns
    /// all that it registered, so that their listeners can be stopped.
    pub fn cleanup_session(&mut self, session: &mut SessionHandle) -> (ended: Vec<RegisteredProxy>)
        ensures
            proxies_view(ended@) == old(session)@.registered,
            final(session)@ == (SessionView { registered: Seq::empty(), ..old(session)@ }),
            final(self)@ == after_cleanup(old(self)@, old(session)@),
    {
        let ghost before = self@;
        let ghost list = session@.registered;
        let ghost id = session@.id;
        let mut ended: Vec<RegisteredProxy> = Vec::new();
        std::mem::swap(&mut ended, &mut session.registered);
        let mut i: usize = 0;
        assert(names_without(before.names, list.take(0), id) =~= before.names);
        assert(ports_without(before.ports, list.take(0), id) =~= before.ports);
        while i < ended.len()
            invariant
                i <= ended@.len(),
                list == proxies_view(ended@),
                session.id@ == id,
                self@ == (StateView {
                    names: names_without(before.names, list.take(i as int), id),
                    ports: ports_without(before.ports, list.take(i as int), id),
                    ..before
                }),
            decreases ended@.len() - i,
        {
            let ghost now = self@;
            self.registry.release(ended[i].name.as_str(), ended[i].port, &session.id);
            proof {
                let name = ended@[i as int].name@;
                let port = ended@[i as int].port;
                let next = list.take(i + 1);
                assert(next[i as int] == (name, port));
                assert forall|k: Seq<char>| lists_name(next, k) <==> lists_name(
                    list.take(i as int),
                    k,
                ) || k == name by {
                    if lists_name(list.take(i as int), k) {
                        let j = choose|j: int|
                            0 <= j < i && (#[trigger] list.take(i as int)[j]).0 == k;
                        assert(next[j].0 == k);
                    }
                    if lists_name(next, k) {
                        let j = choose|j: int| 0 <= j <= i && (#[trigger] next[j]).0 == k;
                        if j < i {
                            assert(list.take(i as int)[j].0 == k);
                        }
                    }
                }
                assert forall|k: u16| lists_port(next, k) <==> lists_port(list.take(i as int), k)
                    || k == port by {
                    if lists_port(list.take(i as int), k) {
                        let j = choose|j: int|
                            0 <= j < i && (#[trigger] list.take(i as int)[j]).1 == k;
                        assert(next[j].1 == k);
                    }
                    if lists_port(next, k) {
                        let j = choose|j: int| 0 <= j <= i && (#[trigger] next[j]).1 == k;
                        if j < i {
                            assert(list.take(i as int)[j].1 == k);
                        }
                    }
                }
                assert(self@.names =~= names_without(before.names, next, id));
                assert(self@.ports =~= ports_without(before.ports, next, id));
            }
            i = i + 1;
        }
        assert(list.take(list.len() as int) =~= list);
        assert(proxies_view(session.registered@) =~= Seq::empty());
        ended
    }

    /// Lets a user connection wait for its tunnel.
    pub fn await_tunnel(&mut self, conn_id: u64, waiter: T)
        ensures
            final(self)@ == (StateView {
                pending: old(self)@.pending.insert(conn_id, waiter),
                ..old(self)@
            }),
    {
        self.pending.insert(conn_id, waiter);
    }

    /// Takes the user connection that waits for this tunnel. There is none if it
    /// was never announced, was taken already or has given up.
    pub fn take_waiter(&mut self, conn_id: u64) -> (waiter: Option<T>)
        ensures
            match waiter {
                Some(w) => old(self)@.pending.contains_pair(conn_id, w),
                None => !old(self)@.pending.contains_key(conn_id),
            },
            final(self)@ == (StateView {
                pending: old(self)@.pending.remove(conn_id),
                ..old(self)@
            }),
    {
        self.pending.remove(&conn_id)
    }
}

/// The content of an optional text.
pub open spec fn opt_str(t: Option<&str>) -> Option<Seq<char>> {
    match t {
        Some(s) => Some(s@),
        None => None,
    }
}

// Laws.

/// Whether a session lists every proxy that it holds.
pub open spec fn holds_only_listed<T>(state: StateView<T>, session: SessionView) -> bool {
    &&& forall|name: Seq<char>| #[trigger]
        state.names.contains_key(name) && state.names[name] == session.id ==> lists_name(
            session.registered,
            name,
        )
    &&& forall|port: u16| #[trigger]
        state.ports.contains_key(port) && state.ports[port] == session.id ==> lists_port(
            session.registered,
            port,
        )
}

/// Whether nothing is held under this session id.
pub open spec fn holds_nothing<T>(state: StateView<T>, id: Seq<char>) -> bool {
    &&& forall|name: Seq<char>| #[trigger]
        state.names.contains_key(name) ==> state.names[name] != id
    &&& forall|port: u16| #[trigger] state.ports.contains_key(port) ==> state.ports[port] != id
}

/// A new session, under whose id nothing is held, lists all it holds.
pub proof fn law_new_session_lists_all<T>(state: StateView<T>, session: SessionView)
    requires
        holds_nothing(state, session.id),
    ensures
        holds_only_listed(state, session),
{
}

/// A session that registers a proxy goes on listing all it holds.
pub proof fn law_register_keeps_list<T>(
    state: StateView<T>,
    session: SessionView,
    name: Seq<char>,
    port: u16,
)
    requires
        holds_only_listed(state, session),
    ensures
        holds_only_listed(
            after_register(state, session.id, name, port),
            SessionView { registered: session.registered.push((name, port)), ..session },
        ),
{
    let list = session.registered.push((name, port));
    assert(list[list.len() - 1] == (name, port));
    assert forall|k: Seq<char>| lists_name(session.registered, k) implies lists_name(list, k) by {
        let j = choose|j: int|
            0 <= j < session.registered.len() && (#[trigger] session.registered[j]).0 == k;
        assert(list[j].0 == k);
    }
    assert forall|k: u16| lists_port(session.registered, k) implies lists_port(list, k) by {
        let j = choose|j: int|
            0 <= j < session.registered.len() && (#[trigger] session.registered[j]).1 == k;
        assert(list[j].1 == k);
    }
}

/// What other sessions register and give back does not make a session hold
/// anything that it does not list.
pub proof fn law_others_keep_list<T>(
    state: StateView<T>,
    session: SessionView,
    other: SessionView,
    name: Seq<char>,
    port: u16,
)
    requires
        holds_only_listed(state, session),
        other.id != session.id,
    ensures
        holds_only_listed(after_register(state, other.id, name, port), session),
        holds_only_listed(after_cleanup(state, other), session),
{
    let registered = after_register(state, other.id, name, port);
    assert forall|n: Seq<char>| #[trigger]
        registered.names.contains_key(n) && registered.names[n] == session.id implies lists_name(
        session.registered,
        n,
    ) by {
        assert(state.names.contains_key(n));
    }
    assert forall|p: u16| #[trigger]
        registered.ports.contains_key(p) && registered.ports[p] == session.id implies lists_port(
        session.registered,
        p,
    ) by {
        assert(state.ports.contains_key(p));
    }
    let cleaned = after_cleanup(state, other);
    assert forall|n: Seq<char>| #[trigger]
        cleaned.names.contains_key(n) && cleaned.names[n] == session.id implies lists_name(
        session.registered,
        n,
    ) by {
        assert(state.names.contains_key(n));
    }
    assert forall|p: u16| #[trigger]
        cleaned.ports.contains_key(p) && cleaned.ports[p] == session.id implies lists_port(
        session.registered,
        p,
    ) by {
        assert(state.ports.contains_key(p));
    }
}

/// A session that has ended holds nothing.
pub proof fn law_cleanup_frees_all<T>(state: StateView<T>, session: SessionView)
    requires
        holds_only_listed(state, session),
    ensures
        holds_nothing(after_cleanup(state, session), session.id),
{
    let cleaned = after_cleanup(state, session);
    assert forall|n: Seq<char>| #[trigger] cleaned.names.contains_key(n) implies cleaned.names[n]
        != session.id by {
        assert(state.names.contains_key(n));
    }
    assert forall|p: u16| #[trigger] cleaned.ports.contains_key(p) implies cleaned.ports[p]
        != session.id by {
        assert(state.ports.contains_key(p));
    }
}

/// The end of a session takes nothing from other sessions.
pub proof fn law_cleanup_spares_others<T>(
    state: StateView<T>,
    session: SessionView,
    name: Seq<char>,
    port: u16,
)
    ensures
        state.names.contains_key(name) && state.names[name] != session.id ==> after_cleanup(
            state,
            session,
        ).names.contains_pair(name, state.names[name]),
        state.ports.contains_key(port) && state.ports[port] != session.id ==> after_cleanup(
            state,
            session,
        ).ports.contains_pair(port, state.ports[port]),
{
}

/// A proxy whose registration is granted displaces nobody: whoever held a name or a
/// port before goes on holding it.
pub proof fn law_registration_displaces_nobody<T>(
    state: StateView<T>,
    id: Seq<char>,
    identity: IdentityView,
    name: Seq<char>,
    proxy_type: ProxyType,
    remote_port: Option<u16>,
    vhost: Option<Seq<char>>,
    port: u16,
)
    requires
        registration(state, identity, name, proxy_type, remote_port, vhost) == Ok::<
            u16,
            Seq<char>,
        >(port),
    ensures
        forall|n: Seq<char>, holder: Seq<char>|
            state.names.contains_pair(n, holder) ==> #[trigger] after_register(
                state,
                id,
                name,
                port,
            ).names.contains_pair(n, holder),
        forall|p: u16, holder: Seq<char>|
            state.ports.contains_pair(p, holder) ==> #[trigger] after_register(
                state,
                id,
                name,
                port,
            ).ports.contains_pair(p, holder),
{
}

/// The names and ports of a registered proxy are refused to everyone until they
/// are given back.
pub proof fn law_registered_is_taken<T>(
    state: StateView<T>,
    id: Seq<char>,
    name: Seq<char>,
    port: u16,
    identity: IdentityView,
    other_name: Seq<char>,
    other_port: u16,
    vhost: Option<Seq<char>>,
)
    ensures
        registration(
            after_register(state, id, name, port),
            identity,
            name,
            ProxyType::Tcp,
            Some(other_port),
            vhost,
        ) is Err,
        registration(
            after_register(state, id, name, port),
            identity,
            other_name,
            ProxyType::Tcp,
            Some(port),
            vhost,
        ) is Err,
{
}

/// Once a session has ended, what it alone had taken can be registered again.
pub proof fn law_cleanup_makes_available<T>(
    state: StateView<T>,
    session: SessionView,
    identity: IdentityView,
    name: Seq<char>,
    port: u16,
)
    requires
        holds_only_listed(state, session),
        state.names.contains_key(name) ==> state.names[name] == session.id,
        state.ports.contains_key(port) ==> state.ports[port] == session.id,
        port != 0,
        may_use_port(identity, port),
    ensures
        registration(
            after_cleanup(state, session),
            identity,
            name,
            ProxyType::Tcp,
            Some(port),
            None,
        ) == Ok::<u16, Seq<char>>(port),
{
    if state.names.contains_key(name) {
        assert(lists_name(session.registered, name));
    }
    if state.ports.contains_key(port) {
        assert(lists_port(session.registered, port));
    }
}

/// Only authorized clients get a port.
pub proof fn law_registration_is_authorized<T>(
    state: StateView<T>,
    identity: IdentityView,
    name: Seq<char>,
    proxy_type: ProxyType,
    remote_port: Option<u16>,
    vhost: Option<Seq<char>>,
)
    requires
        registration(state, identity, name, proxy_type, remote_port, vhost) is Ok,
    ensures
        remote_port matches Some(port) && port != 0 && may_use_port(identity, port)
            && !state.ports.contains_key(port),
        vhost matches Some(host) ==> may_use_vhost(identity, host),
        !state.names.contains_key(name),
        proxy_type == ProxyType::Tcp,
{
}

/// The number after `k` further connections.
pub open spec fn number_after(start: u64, k: nat) -> u64
    decreases k,
{
    if k == 0 {
        start
    } else {
        next_number(number_after(start, (k - 1) as nat))
    }
}

proof fn lemma_number_after(start: u64, k: nat)
    ensures
        number_after(start, k) == (start + k) % 0x1_0000_0000_0000_0000,
    decreases k,
{
    if k > 0 {
        lemma_number_after(start, (k - 1) as nat);
    }
}

/// No two of up to 2^64 user connections in a row have the same number.
pub proof fn law_connection_numbers_differ(start: u64, i: nat, j: nat)
    requires
        i < j,
        j - i < 0x1_0000_0000_0000_0000,
    ensures
        number_after(start, i) != number_after(start, j),
{
    lemma_number_after(start, i);
    lemma_number_after(start, j);
}

/// A user connection gets at most one tunnel: once it was taken, it does not
/// wait any more.
pub proof fn law_waiter_taken_once<T>(pending: Map<u64, T>, conn_id: u64)
    ensures
        !pending.remove(conn_id).contains_key(conn_id),
        forall|other: u64| other != conn_id && #[trigger] pending.contains_key(other)
            ==> pending.remove(conn_id).contains_pair(other, pending[other]),
{
}

} // verus!
