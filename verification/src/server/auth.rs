//! Who a client is and what it may register.
//!
//! The token a client presents is its identity. With a table of users every
//! token stands for a named user with its own ports and virtual hosts. With a
//! single token, or with none at all, any port may be used except those that the
//! system hands out for outgoing connections.
use crate::text::{
    before_first, decimal, joined, lemma_before_first, lemma_before_first_is, push_decimal,
    same_text, text_before,
};
use vstd::prelude::*;

verus! {

/// First port of the range that the system uses for outgoing connections.
pub const EPHEMERAL_FIRST: u16 = 32768;

/// Last port of that range.
pub const EPHEMERAL_LAST: u16 = 60999;

// Port ranges.

/// The ports from `low` to `high`, both included.
#[derive(Debug, Clone, Copy, PartialEq, Eq, Structural)]
pub struct PortRange {
    pub low: u16,
    pub high: u16,
}

impl PortRange {
    /// Whether a port is in the range.
    pub open spec fn holds(self, port: u16) -> bool {
        self.low <= port <= self.high
    }
}

/// Whether a character is a decimal digit.
pub open spec fn is_digit(c: char) -> bool {
    '0' <= c <= '9'
}

/// The number that a text of decimal digits denotes.
pub open spec fn value_of(s: Seq<char>) -> nat
    decreases s.len(),
{
    if s.len() == 0 {
        0
    } else {
        value_of(s.drop_last()) * 10 + (s.last() as nat - 48) as nat
    }
}

/// The port that a text denotes: one or more decimal digits, at most 65535.
pub open spec fn port_number(s: Seq<char>) -> Option<u16> {
    if s.len() > 0 && (forall|i: int| 0 <= i < s.len() ==> is_digit(#[trigger] s[i])) && value_of(s)
        <= 65535 {
        Some(value_of(s) as u16)
    } else {
        None
    }
}

/// The range that a text denotes: a single port, or two ports around a dash of
/// which the first is not the larger.
pub open spec fn port_range(s: Seq<char>) -> Option<PortRange> {
    let first = before_first(s, '-');
    if first.len() == s.len() {
        match port_number(s) {
            Some(port) => Some(PortRange { low: port, high: port }),
            None => None,
        }
    } else {
        match (port_number(first), port_number(s.skip(first.len() as int + 1))) {
            (Some(low), Some(high)) => if low <= high {
                Some(PortRange { low, high })
            } else {
                None
            },
            _ => None,
        }
    }
}

/// More digits do not make a number smaller.
proof fn lemma_value_grows(s: Seq<char>, i: int)
    requires
        0 <= i <= s.len(),
    ensures
        value_of(s.take(i)) <= value_of(s),
    decreases s.len() - i,
{
    if i < s.len() {
        lemma_value_grows(s, i + 1);
        assert(s.take(i + 1).drop_last() =~= s.take(i));
    } else {
        assert(s.take(i) =~= s);
    }
}

/// Reads a port.
pub fn parse_port(s: &str) -> (port: Option<u16>)
    ensures
        port == port_number(s@),
{
    let mut value: u32 = 0;
    let mut empty = true;
    assert(s@.take(0) =~= Seq::empty());
    for c in it: s.chars()
        invariant
            it.seq() == s@,
            empty == (it.index() == 0),
            forall|i: int| 0 <= i < it.index() ==> is_digit(#[trigger] s@[i]),
            value == value_of(s@.take(it.index())),
            value <= 65535,
    {
        empty = false;
        assert(s@[it.index()] == c);
        if c < '0' || '9' < c {
            return None;
        }
        assert(s@.take(it.index() + 1).drop_last() =~= s@.take(it.index()));
        assert(s@.take(it.index() + 1).last() == c);
        value = value * 10 + (c as u32 - 48);
        if value > 65535 {
            proof {
                lemma_value_grows(s@, it.index() + 1);
            }
            return None;
        }
    }
    assert(s@.take(s@.len() as int) =~= s@);
    if empty {
        None
    } else {
        Some(value as u16)
    }
}

/// Reads a range of ports.
pub fn parse_port_range(s: &str) -> (range: Option<PortRange>)
    ensures
        range == port_range(s@),
{
    let first = text_before(s, '-');
    proof {
        lemma_before_first(s@, '-');
    }
    let n: usize = first.as_str().unicode_len();
    let total: usize = s.unicode_len();
    if n == total {
        match parse_port(s) {
            Some(port) => Some(PortRange { low: port, high: port }),
            None => None,
        }
    } else {
        let second = s.substring_char(n + 1, total);
        assert(second@ =~= s@.skip(n + 1));
        match (parse_port(first.as_str()), parse_port(second)) {
            (Some(low), Some(high)) => if low <= high {
                Some(PortRange { low, high })
            } else {
                None
            },
            _ => None,
        }
    }
}

/// A number in decimal denotes that number, and is made of digits.
pub proof fn lemma_decimal_value(n: nat)
    ensures
        decimal(n).len() > 0,
        value_of(decimal(n)) == n,
        forall|i: int| 0 <= i < decimal(n).len() ==> is_digit(#[trigger] decimal(n)[i]),
    decreases n,
{
    if n < 10 {
        assert(decimal(n).drop_last() =~= Seq::empty());
        reveal_with_fuel(value_of, 2);
    } else {
        lemma_decimal_value(n / 10);
        assert(decimal(n).drop_last() =~= decimal(n / 10));
    }
}

/// A port written in decimal is the range of that port alone.
pub proof fn law_single_port_range(port: u16)
    ensures
        port_range(decimal(port as nat)) == Some(PortRange { low: port, high: port }),
{
    let s = decimal(port as nat);
    lemma_decimal_value(port as nat);
    lemma_before_first_is(s, '-', s.len() as int);
    assert(s.take(s.len() as int) =~= s);
}

/// Two ports in decimal with a dash between them are the range between them.
pub proof fn law_port_range_between(low: u16, high: u16)
    requires
        low <= high,
    ensures
        port_range(decimal(low as nat) + seq!['-'] + decimal(high as nat)) == Some(
            PortRange { low, high },
        ),
{
    let a = decimal(low as nat);
    let b = decimal(high as nat);
    let s = a + seq!['-'] + b;
    lemma_decimal_value(low as nat);
    lemma_decimal_value(high as nat);
    assert forall|i: int| 0 <= i < a.len() implies s[i] != '-' by {
        assert(s[i] == a[i]);
        assert(is_digit(a[i]));
    }
    assert(s[a.len() as int] == '-');
    lemma_before_first_is(s, '-', a.len() as int);
    assert(s.take(a.len() as int) =~= a);
    assert(s.skip(a.len() as int + 1) =~= b);
}

// Virtual hosts.

/// Whether a granted host name covers a requested one: they are the same, or the
/// grant is `*.` and a domain and the request puts exactly one label in front of
/// that domain.
pub open spec fn covers(grant: Seq<char>, host: Seq<char>) -> bool {
    let label = before_first(host, '.');
    ||| host == grant
    ||| {
        &&& grant.len() >= 2
        &&& grant[0] == '*'
        &&& grant[1] == '.'
        &&& label.len() > 0
        &&& host == label + grant.skip(1)
    }
}

/// Whether a granted host name covers a requested one.
pub fn vhost_matches(grant: &str, host: &str) -> (yes: bool)
    ensures
        yes == covers(grant@, host@),
{
    if same_text(grant, host) {
        return true;
    }
    let n: usize = grant.unicode_len();
    if n < 2 || grant.get_char(0) != '*' || grant.get_char(1) != '.' {
        return false;
    }
    let label = text_before(host, '.');
    let domain = grant.substring_char(1, n);
    assert(domain@ =~= grant@.skip(1));
    !label.as_str().is_empty() && same_text(host, joined(label.as_str(), domain).as_str())
}

/// A wildcard covers every host with one label in front of its domain.
pub proof fn law_wildcard_covers_one_label(label: Seq<char>, domain: Seq<char>)
    requires
        label.len() > 0,
        !label.contains('.'),
    ensures
        covers(seq!['*', '.'] + domain, label + seq!['.'] + domain),
{
    let grant = seq!['*', '.'] + domain;
    let host = label + seq!['.'] + domain;
    assert forall|i: int| 0 <= i < label.len() implies host[i] != '.' by {
        assert(host[i] == label[i]);
        assert(label.contains(label[i]));
    }
    assert(host[label.len() as int] == '.');
    lemma_before_first_is(host, '.', label.len() as int);
    assert(host.take(label.len() as int) =~= label);
    assert(label + grant.skip(1) =~= host);
}

/// A wildcard covers nothing but its own text and hosts with exactly one label
/// in front of its domain.
pub proof fn law_wildcard_covers_only_one_label(domain: Seq<char>, host: Seq<char>) -> (label: Seq<
    char,
>)
    requires
        covers(seq!['*', '.'] + domain, host),
        host != seq!['*', '.'] + domain,
    ensures
        label.len() > 0,
        !label.contains('.'),
        host == label + seq!['.'] + domain,
{
    let grant = seq!['*', '.'] + domain;
    let label = before_first(host, '.');
    lemma_before_first(host, '.');
    assert(label + grant.skip(1) =~= label + seq!['.'] + domain);
    label
}

/// A wildcard does not cover its bare domain.
pub proof fn law_wildcard_excludes_bare_domain(domain: Seq<char>)
    ensures
        !covers(seq!['*', '.'] + domain, domain),
{
    let grant = seq!['*', '.'] + domain;
    let label = before_first(domain, '.');
    assert(grant.skip(1).len() == domain.len() + 1);
    assert(grant.len() == domain.len() + 2);
}

/// A wildcard does not cover a host with two labels in front of its domain.
pub proof fn law_wildcard_excludes_two_labels(
    first: Seq<char>,
    second: Seq<char>,
    domain: Seq<char>,
)
    requires
        !first.contains('.'),
        first + seq!['.'] + second + seq!['.'] + domain != seq!['*', '.'] + domain,
    ensures
        !covers(
            seq!['*', '.'] + domain,
            first + seq!['.'] + second + seq!['.'] + domain,
        ),
{
    let host = first + seq!['.'] + second + seq!['.'] + domain;
    let grant = seq!['*', '.'] + domain;
    assert forall|i: int| 0 <= i < first.len() implies host[i] != '.' by {
        assert(host[i] == first[i]);
        assert(first.contains(first[i]));
    }
    assert(host[first.len() as int] == '.');
    lemma_before_first_is(host, '.', first.len() as int);
    assert(host.len() == first.len() + 1 + second.len() + 1 + domain.len());
    assert((first + grant.skip(1)).len() == first.len() + 1 + domain.len());
    assert(host.take(first.len() as int).len() == first.len());
}

/// A host that is not a wildcard covers itself alone.
pub proof fn law_plain_host_is_exact(grant: Seq<char>, host: Seq<char>)
    requires
        grant.len() == 0 || grant[0] != '*',
    ensures
        covers(grant, host) <==> host == grant,
{
}

// Tokens.

/// Whether two tokens are the same. Every byte is looked at, so that the time
/// this takes does not tell how much of a wrong token was right.
pub fn tokens_match(presented: &str, expected: &str) -> (same: bool)
    ensures
        same == (presented@ == expected@),
{
    let a = presented.as_bytes();
    let b = expected.as_bytes();
    proof {
        vstd::utf8::encode_utf8_decode_utf8(presented@);
        vstd::utf8::encode_utf8_decode_utf8(expected@);
    }
    if a.len() != b.len() {
        return false;
    }
    let mut diff: u8 = 0;
    let mut i: usize = 0;
    while i < a.len()
        invariant
            i <= a@.len(),
            a@.len() == b@.len(),
            diff == 0 <==> (forall|j: int| 0 <= j < i ==> #[trigger] a@[j] == b@[j]),
        decreases a@.len() - i,
    {
        let (x, y, d) = (a[i], b[i], diff);
        assert((d | (x ^ y)) == 0 <==> d == 0 && x == y) by (bit_vector);
        diff = d | (x ^ y);
        i = i + 1;
    }
    assert(diff == 0 <==> a@ =~= b@);
    diff == 0
}

// Users and identities.

/// A user: who presents `token` is `name` and may use these ports and hosts.
#[derive(Debug, Clone)]
pub struct User {
    pub name: String,
    pub token: String,
    pub ports: Vec<PortRange>,
    pub vhosts: Vec<String>,
}

/// The mathematical content of a [`User`].
pub struct UserView {
    pub name: Seq<char>,
    pub token: Seq<char>,
    pub ports: Seq<PortRange>,
    pub vhosts: Seq<Seq<char>>,
}

/// The content of a list of texts.
pub open spec fn texts(list: Seq<String>) -> Seq<Seq<char>> {
    list.map_values(|s: String| s@)
}

impl View for User {
    type V = UserView;

    open spec fn view(&self) -> UserView {
        UserView {
            name: self.name@,
            token: self.token@,
            ports: self.ports@,
            vhosts: texts(self.vhosts@),
        }
    }
}

impl User {
    /// Another value with the same content.
    pub fn copy(&self) -> (user: User)
        ensures
            user@ == self@,
    {
        let vhosts = self.vhosts.clone();
        assert(texts(vhosts@) =~= texts(self.vhosts@));
        let ports = self.ports.clone();
        assert(ports@ =~= self.ports@);
        User { name: self.name.clone(), token: self.token.clone(), ports, vhosts }
    }
}

/// The content of a list of users.
pub open spec fn users_view(users: Seq<User>) -> Seq<UserView> {
    users.map_values(|u: User| u@)
}

/// How clients are authenticated.
#[derive(Debug, Clone)]
pub enum AuthPolicy {
    /// Every client is accepted.
    Open,
    /// Clients that present this token are accepted.
    Legacy(String),
    /// Clients that present the token of a user are that user.
    Users(Vec<User>),
}

/// The mathematical content of an [`AuthPolicy`].
pub enum AuthPolicyView {
    Open,
    Legacy(Seq<char>),
    Users(Seq<UserView>),
}

impl View for AuthPolicy {
    type V = AuthPolicyView;

    open spec fn view(&self) -> AuthPolicyView {
        match self {
            AuthPolicy::Open => AuthPolicyView::Open,
            AuthPolicy::Legacy(token) => AuthPolicyView::Legacy(token@),
            AuthPolicy::Users(users) => AuthPolicyView::Users(users_view(users@)),
        }
    }
}

/// Who an authenticated client is.
#[derive(Debug, Clone)]
pub enum Identity {
    /// Nobody in particular: authentication is off.
    Open,
    /// A holder of the single token.
    Legacy,
    /// A user of the table.
    User(User),
}

/// The mathematical content of an [`Identity`].
pub enum IdentityView {
    Open,
    Legacy,
    User(UserView),
}

impl View for Identity {
    type V = IdentityView;

    open spec fn view(&self) -> IdentityView {
        match self {
            Identity::Open => IdentityView::Open,
            Identity::Legacy => IdentityView::Legacy,
            Identity::User(user) => IdentityView::User(user@),
        }
    }
}

/// The first user with this token.
pub open spec fn user_with_token(users: Seq<UserView>, token: Seq<char>) -> Option<UserView>
    decreases users.len(),
{
    if users.len() == 0 {
        None
    } else if users[0].token == token {
        Some(users[0])
    } else {
        user_with_token(users.drop_first(), token)
    }
}

/// The identity that a token stands for; `None` refuses the client.
pub open spec fn identity_of(policy: AuthPolicyView, token: Seq<char>) -> Option<IdentityView> {
    match policy {
        AuthPolicyView::Open => Some(IdentityView::Open),
        AuthPolicyView::Legacy(expected) => if token == expected {
            Some(IdentityView::Legacy)
        } else {
            None
        },
        AuthPolicyView::Users(users) => match user_with_token(users, token) {
            Some(user) => Some(IdentityView::User(user)),
            None => None,
        },
    }
}

/// The position of the first user with this token is where the search stops.
proof fn lemma_user_at(users: Seq<UserView>, token: Seq<char>, i: int)
    requires
        0 <= i <= users.len(),
        forall|j: int| 0 <= j < i ==> (#[trigger] users[j]).token != token,
        i < users.len() ==> users[i].token == token,
    ensures
        user_with_token(users, token) == (if i < users.len() {
            Some(users[i])
        } else {
            None
        }),
    decreases i,
{
    if i > 0 {
        assert forall|j: int| 0 <= j < i - 1 implies (#[trigger] users.drop_first()[j]).token
            != token by {
            assert(users.drop_first()[j] == users[j + 1]);
        }
        assert(users[0].token != token);
        lemma_user_at(users.drop_first(), token, i - 1);
    }
}

impl AuthPolicy {
    /// The identity of a client that presents `token`, or `None` if it is to be
    /// refused. The whole table is searched whatever the token.
    pub fn authenticate(&self, token: &str) -> (identity: Option<Identity>)
        ensures
            match identity {
                Some(id) => identity_of(self@, token@) == Some(id@),
                None => identity_of(self@, token@) is None,
            },
    {
        match self {
            AuthPolicy::Open => Some(Identity::Open),
            AuthPolicy::Legacy(expected) => {
                if tokens_match(token, expected.as_str()) {
                    Some(Identity::Legacy)
                } else {
                    None
                }
            },
            AuthPolicy::Users(users) => {
                let ghost all = users_view(users@);
                let mut found: usize = users.len();
                let mut i: usize = 0;
                while i < users.len()
                    invariant
                        i <= users@.len(),
                        all == users_view(users@),
                        found < i || found == users@.len(),
                        found == users@.len() ==> forall|j: int|
                            0 <= j < i ==> (#[trigger] all[j]).token != token@,
                        found < users@.len() ==> all[found as int].token == token@ && forall|j: int|
                            0 <= j < found ==> (#[trigger] all[j]).token != token@,
                    decreases users@.len() - i,
                {
                    let hit = tokens_match(token, users[i].token.as_str());
                    assert(all[i as int].token == users@[i as int].token@);
                    if hit && found == users.len() {
                        found = i;
                    }
                    i = i + 1;
                }
                proof {
                    lemma_user_at(all, token@, found as int);
                }
                if found < users.len() {
                    assert(all[found as int] == users@[found as int]@);
                    Some(Identity::User(users[found].copy()))
                } else {
                    None
                }
            },
        }
    }
}

// Authorization.

/// Whether a port is in one of the ranges.
pub open spec fn in_ranges(ports: Seq<PortRange>, port: u16) -> bool {
    exists|i: int| 0 <= i < ports.len() && (#[trigger] ports[i]).holds(port)
}

/// Whether a client may listen on a port.
pub open spec fn may_use_port(identity: IdentityView, port: u16) -> bool {
    match identity {
        IdentityView::User(user) => in_ranges(user.ports, port),
        _ => !(EPHEMERAL_FIRST <= port <= EPHEMERAL_LAST),
    }
}

/// What a client is told that may not use a port.
pub open spec fn port_refusal(identity: IdentityView, port: u16) -> Seq<char> {
    match identity {
        IdentityView::User(_) => "端口 "@ + decimal(port as nat) + " 不在授权范围内"@,
        _ => "端口 "@ + decimal(port as nat)
            + " 位于系统临时端口区间 32768-60999，不可注册"@,
    }
}

/// Checks that a client may listen on a port.
pub fn authorize_port(identity: &Identity, port: u16) -> (r: Result<(), String>)
    ensures
        match r {
            Ok(_) => may_use_port(identity@, port),
            Err(text) => !may_use_port(identity@, port) && text@ == port_refusal(identity@, port),
        },
{
    match identity {
        Identity::User(user) => {
            let mut i: usize = 0;
            while i < user.ports.len()
                invariant
                    i <= user.ports@.len(),
                    identity@ == IdentityView::User(user@),
                    forall|j: int| 0 <= j < i ==> !(#[trigger] user.ports@[j]).holds(port),
                decreases user.ports@.len() - i,
            {
                if user.ports[i].low <= port && port <= user.ports[i].high {
                    assert(user@.ports[i as int].holds(port));
                    return Ok(());
                }
                i = i + 1;
            }
            let mut text = "端口 ".to_owned();
            push_decimal(&mut text, port as u128);
            text.append(" 不在授权范围内");
            Err(text)
        },
        _ => {
            if EPHEMERAL_FIRST <= port && port <= EPHEMERAL_LAST {
                let mut text = "端口 ".to_owned();
                push_decimal(&mut text, port as u128);
                text.append(" 位于系统临时端口区间 32768-60999，不可注册");
                Err(text)
            } else {
                Ok(())
            }
        },
    }
}

/// Whether one of the granted hosts covers the requested one.
pub open spec fn any_covers(grants: Seq<Seq<char>>, host: Seq<char>) -> bool {
    exists|i: int| 0 <= i < grants.len() && covers(#[trigger] grants[i], host)
}

/// Whether a client may serve a virtual host.
pub open spec fn may_use_vhost(identity: IdentityView, host: Seq<char>) -> bool {
    match identity {
        IdentityView::User(user) => any_covers(user.vhosts, host),
        _ => true,
    }
}

/// What a user is told that may not serve a virtual host.
pub open spec fn vhost_refusal(host: Seq<char>) -> Seq<char> {
    "vhost "@ + host + " 不在授权范围内"@
}

/// Checks that a client may serve a virtual host.
pub fn authorize_vhost(identity: &Identity, vhost: &str) -> (r: Result<(), String>)
    ensures
        match r {
            Ok(_) => may_use_vhost(identity@, vhost@),
            Err(text) => !may_use_vhost(identity@, vhost@) && text@ == vhost_refusal(vhost@),
        },
{
    match identity {
        Identity::User(user) => {
            let ghost grants = texts(user.vhosts@);
            let mut i: usize = 0;
            while i < user.vhosts.len()
                invariant
                    i <= user.vhosts@.len(),
                    identity@ == IdentityView::User(user@),
                    grants == texts(user.vhosts@),
                    forall|j: int| 0 <= j < i ==> !covers(#[trigger] grants[j], vhost@),
                decreases user.vhosts@.len() - i,
            {
                assert(grants[i as int] == user.vhosts@[i as int]@);
                if vhost_matches(user.vhosts[i].as_str(), vhost) {
                    return Ok(());
                }
                i = i + 1;
            }
            let text = joined("vhost ", vhost);
            Err(joined(text.as_str(), " 不在授权范围内"))
        },
        _ => Ok(()),
    }
}

/// Without authentication a client may do what a holder of the single token may.
pub proof fn law_open_is_as_legacy(port: u16, host: Seq<char>)
    ensures
        may_use_port(IdentityView::Open, port) == may_use_port(IdentityView::Legacy, port),
        may_use_vhost(IdentityView::Open, host) == may_use_vhost(IdentityView::Legacy, host),
        port_refusal(IdentityView::Open, port) == port_refusal(IdentityView::Legacy, port),
{
}

/// A client without a user may use every port outside the range that the system
/// uses for outgoing connections, and none inside it.
pub proof fn law_legacy_ports(identity: IdentityView, port: u16)
    requires
        !(identity is User),
    ensures
        may_use_port(identity, port) <==> port < 32768 || port > 60999,
{
}

/// The identity that a table of users gives has the presented token and is in
/// the table.
pub proof fn law_token_is_identity(users: Seq<UserView>, token: Seq<char>)
    ensures
        match identity_of(AuthPolicyView::Users(users), token) {
            Some(IdentityView::User(user)) => user.token == token && users.contains(user),
            Some(_) => false,
            None => forall|i: int| 0 <= i < users.len() ==> (#[trigger] users[i]).token != token,
        },
    decreases users.len(),
{
    if users.len() > 0 && users[0].token != token {
        law_token_is_identity(users.drop_first(), token);
        let rest = users.drop_first();
        match user_with_token(rest, token) {
            Some(user) => {
                let i = choose|i: int| 0 <= i < rest.len() && rest[i] == user;
                assert(users[i + 1] == user);
            },
            None => {
                assert forall|i: int| 0 <= i < users.len() implies (#[trigger] users[i]).token
                    != token by {
                    if i > 0 {
                        assert(rest[i - 1] == users[i]);
                    }
                }
            },
        }
    } else if users.len() > 0 {
        assert(users[0] == users[0]);
    }
}

} // verus!
