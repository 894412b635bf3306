//! Configuration of the server.
use crate::server::auth::{
    parse_port_range, port_range, texts, users_view, AuthPolicy, AuthPolicyView, PortRange, User,
    UserView,
};
use crate::text::{decimal, joined, push_decimal};
use vstd::prelude::*;

verus! {

/// The address the server listens on when none is configured.
pub fn default_bind_addr() -> (addr: String)
    ensures
        addr@ == "0.0.0.0"@,
{
    "0.0.0.0".to_owned()
}

/// A configured user. `ports` holds single ports and ranges such as `6000-6100`.
#[derive(Debug, Clone)]
pub struct UserConfig {
    pub name: String,
    pub token: String,
    pub ports: Vec<String>,
    pub vhosts: Vec<String>,
}

/// TLS settings. Without certificate and key a self-signed pair is made.
#[derive(Debug, Clone)]
pub struct TlsConfig {
    pub enabled: bool,
    pub cert: Option<String>,
    pub key: Option<String>,
}

impl Default for TlsConfig {
    /// Encryption on, certificate made by the server.
    fn default() -> (c: TlsConfig)
        ensures
            c.enabled,
            c.cert is None,
            c.key is None,
    {
        TlsConfig { enabled: true, cert: None, key: None }
    }
}

/// QUIC settings. Without a port of its own QUIC uses the number of the TCP port.
#[derive(Debug, Clone)]
pub struct QuicConfig {
    pub enabled: bool,
    pub bind_port: Option<u16>,
}

impl Default for QuicConfig {
    /// QUIC off.
    fn default() -> (c: QuicConfig)
        ensures
            !c.enabled,
            c.bind_port is None,
    {
        QuicConfig { enabled: false, bind_port: None }
    }
}

/// Configuration of the server.
#[derive(Debug, Clone)]
pub struct ServerConfig {
    /// Address of the control port and of the proxies' ports.
    pub bind_addr: String,
    pub bind_port: u16,
    /// The single token; empty for none. It has no effect beside users.
    pub token: String,
    pub users: Vec<UserConfig>,
    pub tls: TlsConfig,
    pub quic: QuicConfig,
}

/// A user whose entry in the configuration holds something that is no port range.
#[derive(Debug, Clone, PartialEq)]
pub struct PolicyError {
    pub user: String,
    pub ports: String,
}

/// The mathematical content of a [`PolicyError`].
pub struct PolicyErrorView {
    pub user: Seq<char>,
    pub ports: Seq<char>,
}

impl View for PolicyError {
    type V = PolicyErrorView;

    open spec fn view(&self) -> PolicyErrorView {
        PolicyErrorView { user: self.user@, ports: self.ports@ }
    }
}

impl PolicyError {
    /// Describes the error.
    pub fn text(&self) -> (text: String)
        ensures
            text@ == "用户 "@ + self.user@ + " 的端口区间无效: "@ + self.ports@,
    {
        let text = joined("用户 ", self.user.as_str());
        let text = joined(text.as_str(), " 的端口区间无效: ");
        joined(text.as_str(), self.ports.as_str())
    }
}

/// The ranges that texts denote, or the first text that denotes none.
pub open spec fn ranges_of(list: Seq<Seq<char>>) -> Result<Seq<PortRange>, Seq<char>>
    decreases list.len(),
{
    if list.len() == 0 {
        Ok(Seq::empty())
    } else {
        match ranges_of(list.drop_last()) {
            Err(bad) => Err(bad),
            Ok(ranges) => match port_range(list.last()) {
                Some(range) => Ok(ranges.push(range)),
                None => Err(list.last()),
            },
        }
    }
}

/// The user that an entry describes.
pub open spec fn user_of(c: UserConfig) -> Result<UserView, PolicyErrorView> {
    match ranges_of(texts(c.ports@)) {
        Ok(ports) => Ok(
            UserView { name: c.name@, token: c.token@, ports, vhosts: texts(c.vhosts@) },
        ),
        Err(bad) => Err(PolicyErrorView { user: c.name@, ports: bad }),
    }
}

/// The users that entries describe, or the error of the first that describes none.
pub open spec fn users_of(list: Seq<UserConfig>) -> Result<Seq<UserView>, PolicyErrorView>
    decreases list.len(),
{
    if list.len() == 0 {
        Ok(Seq::empty())
    } else {
        match users_of(list.drop_last()) {
            Err(e) => Err(e),
            Ok(users) => match user_of(list.last()) {
                Err(e) => Err(e),
                Ok(user) => Ok(users.push(user)),
            },
        }
    }
}

/// How a configuration authenticates clients: by its users if it has any, else
/// by its token if it has one, else not at all.
pub open spec fn policy_of(c: ServerConfig) -> Result<AuthPolicyView, PolicyErrorView> {
    if c.users@.len() > 0 {
        match users_of(c.users@) {
            Ok(users) => Ok(AuthPolicyView::Users(users)),
            Err(e) => Err(e),
        }
    } else if c.token@.len() > 0 {
        Ok(AuthPolicyView::Legacy(c.token@))
    } else {
        Ok(AuthPolicyView::Open)
    }
}

/// An error among the first entries is the error of all of them.
proof fn lemma_first_bad_range(list: Seq<Seq<char>>, i: int)
    requires
        0 <= i <= list.len(),
        ranges_of(list.take(i)) is Err,
    ensures
        ranges_of(list) == ranges_of(list.take(i)),
    decreases list.len() - i,
{
    if i < list.len() {
        assert(list.take(i + 1).drop_last() =~= list.take(i));
        lemma_first_bad_range(list, i + 1);
    } else {
        assert(list.take(i) =~= list);
    }
}

/// An error among the first entries is the error of all of them.
proof fn lemma_first_bad_user(list: Seq<UserConfig>, i: int)
    requires
        0 <= i <= list.len(),
        users_of(list.take(i)) is Err,
    ensures
        users_of(list) == users_of(list.take(i)),
    decreases list.len() - i,
{
    if i < list.len() {
        assert(list.take(i + 1).drop_last() =~= list.take(i));
        lemma_first_bad_user(list, i + 1);
    } else {
        assert(list.take(i) =~= list);
    }
}

impl UserConfig {
    /// The user that the entry describes.
    pub fn user(&self) -> (r: Result<User, PolicyError>)
        ensures
            match r {
                Ok(user) => user_of(*self) == Ok::<UserView, PolicyErrorView>(user@),
                Err(e) => user_of(*self) == Err::<UserView, PolicyErrorView>(e@),
            },
    {
        let ghost list = texts(self.ports@);
        let mut ports: Vec<PortRange> = Vec::new();
        let mut i: usize = 0;
        assert(list.take(0) =~= Seq::empty());
        while i < self.ports.len()
            invariant
                i <= self.ports@.len(),
                list == texts(self.ports@),
                ranges_of(list.take(i as int)) == Ok::<Seq<PortRange>, Seq<char>>(ports@),
            decreases self.ports@.len() - i,
        {
            assert(list.take(i + 1).drop_last() =~= list.take(i as int));
            assert(list.take(i + 1).last() == self.ports@[i as int]@);
            match parse_port_range(self.ports[i].as_str()) {
                Some(range) => {
                    ports.push(range);
                },
                None => {
                    proof {
                        lemma_first_bad_range(list, i + 1);
                    }
                    return Err(
                        PolicyError { user: self.name.clone(), ports: self.ports[i].clone() },
                    );
                },
            }
            i = i + 1;
        }
        assert(list.take(list.len() as int) =~= list);
        let vhosts = self.vhosts.clone();
        assert(texts(vhosts@) =~= texts(self.vhosts@));
        Ok(User { name: self.name.clone(), token: self.token.clone(), ports, vhosts })
    }
}

impl ServerConfig {
    /// How clients are to be authenticated.
    pub fn auth_policy(&self) -> (r: Result<AuthPolicy, PolicyError>)
        ensures
            match r {
                Ok(policy) => policy_of(*self) == Ok::<AuthPolicyView, PolicyErrorView>(policy@),
                Err(e) => policy_of(*self) == Err::<AuthPolicyView, PolicyErrorView>(e@),
            },
    {
        if self.users.len() == 0 {
            if self.token.as_str().is_empty() {
                return Ok(AuthPolicy::Open);
            }
            return Ok(AuthPolicy::Legacy(self.token.clone()));
        }
        let mut users: Vec<User> = Vec::new();
        let mut i: usize = 0;
        assert(self.users@.take(0) =~= Seq::empty());
        assert(users_view(users@) =~= Seq::empty());
        while i < self.users.len()
            invariant
                i <= self.users@.len(),
                self.users@.len() > 0,
                users_of(self.users@.take(i as int)) == Ok::<Seq<UserView>, PolicyErrorView>(
                    users_view(users@),
                ),
            decreases self.users@.len() - i,
        {
            assert(self.users@.take(i + 1).drop_last() =~= self.users@.take(i as int));
            match self.users[i].user() {
                Ok(user) => {
                    let ghost before = users@;
                    users.push(user);
                    assert(users_view(users@) =~= users_view(before).push(user@));
                },
                Err(e) => {
                    proof {
                        lemma_first_bad_user(self.users@, i + 1);
                    }
                    return Err(e);
                },
            }
            i = i + 1;
        }
        assert(self.users@.take(self.users@.len() as int) =~= self.users@);
        Ok(AuthPolicy::Users(users))
    }

    /// The UDP port that QUIC listens on.
    pub fn quic_port(&self) -> (port: u16)
        ensures
            port == (match self.quic.bind_port {
                Some(p) => p,
                None => self.bind_port,
            }),
    {
        match self.quic.bind_port {
            Some(port) => port,
            None => self.bind_port,
        }
    }

    /// The address that QUIC listens on.
    pub fn quic_addr(&self) -> (addr: String)
        ensures
            addr@ == self.bind_addr@ + ":"@ + decimal(
                (match self.quic.bind_port {
                    Some(p) => p,
                    None => self.bind_port,
                }) as nat,
            ),
    {
        let mut addr = joined(self.bind_addr.as_str(), ":");
        push_decimal(&mut addr, self.quic_port() as u128);
        addr
    }
}

/// Beside users the single token has no effect.
pub proof fn law_users_override_token(c: ServerConfig, d: ServerConfig)
    requires
        c.users == d.users,
        c.users@.len() > 0,
    ensures
        policy_of(c) == policy_of(d),
        policy_of(c) matches Ok(policy) ==> policy is Users,
{
}

} // verus!
