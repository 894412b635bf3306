//! Configuration of the client.
use crate::msg::ProxyType;
use crate::text::joined;
use vstd::prelude::*;

verus! {

/// The port of a server whose configuration names none.
pub fn default_server_port() -> (port: u16)
    ensures
        port == 7000,
{
    7000
}

/// Encryption is on unless the configuration turns it off.
pub fn default_true() -> (on: bool)
    ensures
        on,
{
    true
}

/// What carries the control channel and the tunnels.
#[derive(Debug, Clone, Copy, PartialEq, Eq, Structural)]
pub enum Transport {
    Tcp,
    Quic,
}

impl Default for Transport {
    fn default() -> (transport: Transport)
        ensures
            transport == Transport::Tcp,
    {
        Transport::Tcp
    }
}

/// Configuration of a client.
#[derive(Debug, Clone)]
pub struct ClientConfig {
    /// Address or name of the server.
    pub server_addr: String,
    pub server_port: u16,
    pub transport: Transport,
    pub token: String,
    pub proxies: Vec<ProxyConfig>,
    pub tls: TlsConfig,
}

/// TLS settings.
#[derive(Debug, Clone)]
pub struct TlsConfig {
    pub enabled: bool,
    /// SHA-256 of the server's certificate; without it the certificate
    /// authorities of the system decide.
    pub server_fingerprint: Option<String>,
}

impl Default for TlsConfig {
    fn default() -> (tls: TlsConfig)
        ensures
            tls.enabled,
            tls.server_fingerprint is None,
    {
        TlsConfig { enabled: default_true(), server_fingerprint: None }
    }
}

/// A local service and the port that exposes it.
#[derive(Debug, Clone)]
pub struct ProxyConfig {
    pub name: String,
    pub proxy_type: ProxyType,
    /// Address of the local service, such as `127.0.0.1:22`.
    pub local_addr: String,
    /// Port on the server.
    pub remote_port: u16,
}

/// Why a list of proxies cannot be used; holds the name of the proxy.
#[derive(Debug, Clone, PartialEq)]
pub enum ConfigError {
    /// The type is not `tcp`.
    NotTcp(String),
    /// The remote port is zero.
    ZeroPort(String),
    /// An earlier proxy has the same name.
    DuplicateName(String),
}

/// The mathematical content of a [`ConfigError`].
pub enum ConfigErrorView {
    NotTcp(Seq<char>),
    ZeroPort(Seq<char>),
    DuplicateName(Seq<char>),
}

impl View for ConfigError {
    type V = ConfigErrorView;

    open spec fn view(&self) -> ConfigErrorView {
        match self {
            ConfigError::NotTcp(name) => ConfigErrorView::NotTcp(name@),
            ConfigError::ZeroPort(name) => ConfigErrorView::ZeroPort(name@),
            ConfigError::DuplicateName(name) => ConfigErrorView::DuplicateName(name@),
        }
    }
}

/// How an error is shown to the user.
pub open spec fn config_error_text(e: ConfigErrorView) -> Seq<char> {
    match e {
        ConfigErrorView::NotTcp(name) => "proxy `"@ + name + "`: M1 仅支持 type = \"tcp\""@,
        ConfigErrorView::ZeroPort(name) => "proxy `"@ + name + "`: remote_port 不能为 0"@,
        ConfigErrorView::DuplicateName(name) => "proxy 名称重复: "@ + name,
    }
}

impl ConfigError {
    /// How the error is shown to the user.
    pub fn text(&self) -> (text: String)
        ensures
            text@ == config_error_text(self@),
    {
        match self {
            ConfigError::NotTcp(name) => joined(
                joined("proxy `", name.as_str()).as_str(),
                "`: M1 仅支持 type = \"tcp\"",
            ),
            ConfigError::ZeroPort(name) => joined(
                joined("proxy `", name.as_str()).as_str(),
                "`: remote_port 不能为 0",
            ),
            ConfigError::DuplicateName(name) => joined("proxy 名称重复: ", name.as_str()),
        }
    }
}

/// Whether one of the first `n` proxies has this name.
pub open spec fn named_before(proxies: Seq<ProxyConfig>, n: int, name: Seq<char>) -> bool {
    exists|j: int| 0 <= j < n && (#[trigger] proxies[j]).name@ == name
}

/// What is wrong with the proxy at `i`.
pub open spec fn problem_at(proxies: Seq<ProxyConfig>, i: int) -> Option<ConfigErrorView> {
    if proxies[i].proxy_type != ProxyType::Tcp {
        Some(ConfigErrorView::NotTcp(proxies[i].name@))
    } else if proxies[i].remote_port == 0 {
        Some(ConfigErrorView::ZeroPort(proxies[i].name@))
    } else if named_before(proxies, i, proxies[i].name@) {
        Some(ConfigErrorView::DuplicateName(proxies[i].name@))
    } else {
        None
    }
}

/// Whether nothing is wrong with the first `n` proxies.
pub open spec fn sound_before(proxies: Seq<ProxyConfig>, n: int) -> bool {
    forall|i: int| 0 <= i < n ==> (#[trigger] problem_at(proxies, i)) is None
}

/// Whether one of the first `n` proxies has this name.
fn has_name_before(proxies: &Vec<ProxyConfig>, n: usize, name: &String) -> (yes: bool)
    requires
        n <= proxies@.len(),
    ensures
        yes == named_before(proxies@, n as int, name@),
{
    let mut j: usize = 0;
    while j < n
        invariant
            j <= n <= proxies@.len(),
            !named_before(proxies@, j as int, name@),
        decreases n - j,
    {
        if proxies[j].name == *name {
            assert(proxies@[j as int].name@ == name@);
            return true;
        }
        j = j + 1;
    }
    false
}

impl ClientConfig {
    /// Checks the proxies and reports the first thing that is wrong with them.
    pub fn validate(&self) -> (r: Result<(), ConfigError>)
        ensures
            match r {
                Ok(_) => sound_before(self.proxies@, self.proxies@.len() as int),
                Err(e) => exists|i: int|
                    0 <= i < self.proxies@.len() && #[trigger] problem_at(self.proxies@, i) == Some(
                        e@,
                    ) && sound_before(self.proxies@, i),
            },
    {
        let mut i: usize = 0;
        while i < self.proxies.len()
            invariant
                i <= self.proxies@.len(),
                sound_before(self.proxies@, i as int),
            decreases self.proxies@.len() - i,
        {
            let p = &self.proxies[i];
            let ghost problem = problem_at(self.proxies@, i as int);
            if p.proxy_type != ProxyType::Tcp {
                let e = ConfigError::NotTcp(p.name.clone());
                assert(problem == Some(e@));
                return Err(e);
            }
            if p.remote_port == 0 {
                let e = ConfigError::ZeroPort(p.name.clone());
                assert(problem == Some(e@));
                return Err(e);
            }
            if has_name_before(&self.proxies, i, &p.name) {
                let e = ConfigError::DuplicateName(p.name.clone());
                assert(problem == Some(e@));
                return Err(e);
            }
            i = i + 1;
        }
        Ok(())
    }
}

/// The proxies of a sound configuration have different names.
pub proof fn law_sound_names_differ(proxies: Seq<ProxyConfig>, i: int, j: int)
    requires
        sound_before(proxies, proxies.len() as int),
        0 <= i < j < proxies.len(),
    ensures
        proxies[i].name@ != proxies[j].name@,
{
    assert(problem_at(proxies, j) is None);
}

} // verus!
