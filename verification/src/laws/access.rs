//! Who a client is and what it may register.
use crate::server::auth::{
    authorize_port, authorize_vhost, covers, law_wildcard_covers_one_label, may_use_port,
    may_use_vhost, parse_port, parse_port_range, port_range, port_refusal, user_with_token,
    users_view, value_of, vhost_matches, AuthPolicy, Identity, PortRange, User, UserView,
};
use crate::text::{before_first, decimal, lemma_before_first, lemma_before_first_is};
use vstd::arithmetic::power::{lemma_pow0, lemma_pow1, lemma_pow_adds, pow};
use vstd::prelude::*;

verus! {

// Numbers.

/// Whether a text is made of decimal digits, one at least.
pub open spec fn all_digits(s: Seq<char>) -> bool {
    s.len() > 0 && forall|i: int| 0 <= i < s.len() ==> '0' <= #[trigger] s[i] <= '9'
}

/// The number that decimal digits denote: the first counts as many tens as digits
/// follow it.
pub open spec fn denoted(s: Seq<char>) -> int
    decreases s.len(),
{
    if s.len() == 0 {
        0
    } else {
        (s[0] as int - '0' as int) * pow(10, (s.len() - 1) as nat) + denoted(s.drop_first())
    }
}

/// Whether a text is a port in decimal.
pub open spec fn is_port(s: Seq<char>) -> bool {
    all_digits(s) && denoted(s) <= 65535
}

/// A digit at the end counts ones, and all others ten times as much.
proof fn lemma_denoted_push(s: Seq<char>, c: char)
    ensures
        denoted(s.push(c)) == denoted(s) * 10 + (c as int - '0' as int),
    decreases s.len(),
{
    let t = s.push(c);
    if s.len() == 0 {
        lemma_pow0(10);
        assert(t.drop_first().len() == 0);
        reveal_with_fuel(denoted, 2);
    } else {
        lemma_denoted_push(s.drop_first(), c);
        assert(t.drop_first() =~= s.drop_first().push(c));
        let d = s[0] as int - '0' as int;
        let k = (s.len() - 1) as nat;
        lemma_pow_adds(10, k, 1);
        lemma_pow1(10);
        assert(d * (pow(10, k) * 10) == d * pow(10, k) * 10) by (nonlinear_arith);
    }
}

proof fn lemma_denoted(s: Seq<char>)
    requires
        forall|i: int| 0 <= i < s.len() ==> '0' <= #[trigger] s[i] <= '9',
    ensures
        value_of(s) == denoted(s),
    decreases s.len(),
{
    if s.len() > 0 {
        let head = s.drop_last();
        assert forall|i: int| 0 <= i < head.len() implies '0' <= #[trigger] head[i] <= '9' by {
            assert(head[i] == s[i]);
        }
        lemma_denoted(head);
        lemma_denoted_push(head, s.last());
        assert(head.push(s.last()) =~= s);
    }
}

/// A number in decimal is the text of digits that denotes it, without a zero in
/// front unless it is zero itself.
pub proof fn law_decimal(n: nat)
    ensures
        all_digits(decimal(n)),
        denoted(decimal(n)) == n,
        decimal(n)[0] == '0' ==> decimal(n).len() == 1,
    decreases n,
{
    if n < 10 {
        assert(decimal(n) =~= Seq::<char>::empty().push((48 + n) as char));
        lemma_denoted_push(Seq::empty(), (48 + n) as char);
    } else {
        law_decimal(n / 10);
        lemma_denoted_push(decimal(n / 10), (48 + n % 10) as char);
        if decimal(n / 10)[0] == '0' {
            assert(decimal(n / 10) =~= Seq::<char>::empty().push('0'));
            lemma_denoted_push(Seq::empty(), '0');
        }
    }
}

/// A text is read as a port exactly if it is one in decimal, and as the number that
/// it denotes.
pub proof fn law_parse_port(s: &str, port: Option<u16>)
    requires
        call_ensures(parse_port, (s,), port),
    ensures
        port is Some <==> is_port(s@),
        port matches Some(n) ==> n == denoted(s@),
{
    if all_digits(s@) {
        lemma_denoted(s@);
    }
}

/// Whether a text is rightly read as a range: without a dash exactly if it is a port,
/// which is then the only one of the range; with a dash exactly if a port stands on
/// either side of the first dash, and the first is not the larger.
pub open spec fn rightly_ranged(s: Seq<char>, range: Option<PortRange>) -> bool {
    &&& !s.contains('-') ==> match range {
        Some(r) => is_port(s) && r.low == denoted(s) && r.high == denoted(s),
        None => !is_port(s),
    }
    &&& forall|a: Seq<char>, b: Seq<char>|
        s == #[trigger] (a + seq!['-'] + b) && !a.contains('-') ==> match range {
            Some(r) => is_port(a) && is_port(b) && denoted(a) <= denoted(b) && r.low == denoted(a)
                && r.high == denoted(b),
            None => !(is_port(a) && is_port(b) && denoted(a) <= denoted(b)),
        }
}

pub(crate) proof fn lemma_rightly_ranged(s: Seq<char>)
    ensures
        rightly_ranged(s, port_range(s)),
{
    let range = port_range(s);
    lemma_before_first(s, '-');
    if !s.contains('-') {
        lemma_before_first_is(s, '-', s.len() as int);
        assert(s.take(s.len() as int) =~= s);
        if all_digits(s) {
            lemma_denoted(s);
        }
    }
    assert forall|a: Seq<char>, b: Seq<char>|
        s == #[trigger] (a + seq!['-'] + b) && !a.contains('-') implies match range {
        Some(r) => is_port(a) && is_port(b) && denoted(a) <= denoted(b) && r.low == denoted(a)
            && r.high == denoted(b),
        None => !(is_port(a) && is_port(b) && denoted(a) <= denoted(b)),
    } by {
        let n = a.len() as int;
        assert forall|i: int| 0 <= i < n implies s[i] != '-' by {
            assert(s[i] == a[i]);
            assert(a.contains(a[i]));
        }
        assert(s[n] == '-');
        lemma_before_first_is(s, '-', n);
        assert(s.take(n) =~= a);
        assert(s.skip(n + 1) =~= b);
        if all_digits(a) {
            lemma_denoted(a);
        }
        if all_digits(b) {
            lemma_denoted(b);
        }
    }
}

/// A text is read as the range that it denotes, and as none if it denotes none.
pub proof fn law_parse_port_range(s: &str, range: Option<PortRange>)
    requires
        call_ensures(parse_port_range, (s,), range),
    ensures
        rightly_ranged(s@, range),
{
    lemma_rightly_ranged(s@);
}

// Authentication.

/// Whether two users have the same name and token, and may use the same ports and
/// hosts.
pub open spec fn same_user(a: User, b: User) -> bool {
    &&& a.name@ == b.name@
    &&& a.token@ == b.token@
    &&& a.ports@ == b.ports@
    &&& a.vhosts@.len() == b.vhosts@.len()
    &&& forall|i: int| 0 <= i < a.vhosts@.len() ==> (#[trigger] a.vhosts@[i])@ == b.vhosts@[i]@
}

pub(crate) proof fn lemma_first_user(users: Seq<UserView>, token: Seq<char>)
    ensures
        match user_with_token(users, token) {
            Some(user) => exists|i: int|
                0 <= i < users.len() && #[trigger] users[i] == user && user.token == token && (
                forall|j: int| 0 <= j < i ==> (#[trigger] users[j]).token != token),
            None => forall|i: int| 0 <= i < users.len() ==> (#[trigger] users[i]).token != token,
        },
    decreases users.len(),
{
    if users.len() > 0 {
        if users[0].token != token {
            let rest = users.drop_first();
            lemma_first_user(rest, token);
            match user_with_token(rest, token) {
                Some(user) => {
                    let k = choose|i: int|
                        0 <= i < rest.len() && #[trigger] rest[i] == user && (forall|j: int|
                            0 <= j < i ==> (#[trigger] rest[j]).token != token);
                    assert(users[k + 1] == user);
                    assert forall|j: int| 0 <= j < k + 1 implies (#[trigger] users[j]).token
                        != token by {
                        if j > 0 {
                            assert(rest[j - 1] == users[j]);
                        }
                    }
                },
                None => {
                    assert forall|i: int| 0 <= i < users.len() implies (#[trigger] users[i]).token
                        != token by {
                        if i > 0 {
                            assert(rest[i - 1] == users[i]);
                        }
                    }
                },
            }
        } else {
            assert(users[0] == users[0]);
        }
    }
}

/// Where authentication is off, every client is admitted, as nobody in particular.
pub proof fn law_open_admits_everybody(policy: &AuthPolicy, token: &str, r: Option<Identity>)
    requires
        call_ensures(AuthPolicy::authenticate, (policy, token), r),
        *policy is Open,
    ensures
        r == Some(Identity::Open),
{
}

/// Where there is a single token, a client has an identity exactly if it presents
/// that very text, and is then a holder of the single token.
pub proof fn law_single_token(
    policy: &AuthPolicy,
    expected: String,
    token: &str,
    r: Option<Identity>,
)
    requires
        call_ensures(AuthPolicy::authenticate, (policy, token), r),
        *policy == AuthPolicy::Legacy(expected),
    ensures
        r is Some <==> token@ == expected@,
        r matches Some(identity) ==> identity is Legacy,
{
}

/// Where there are users, a client is the first user whose token it presents, with
/// all that this user may do; it is refused if no user has the token.
pub proof fn law_first_user_with_token(
    policy: &AuthPolicy,
    users: Vec<User>,
    token: &str,
    r: Option<Identity>,
)
    requires
        call_ensures(AuthPolicy::authenticate, (policy, token), r),
        *policy == AuthPolicy::Users(users),
    ensures
        r is None <==> forall|i: int|
            0 <= i < users@.len() ==> (#[trigger] users@[i]).token@ != token@,
        forall|i: int|
            0 <= i < users@.len() && (#[trigger] users@[i]).token@ == token@ && (forall|j: int|
                0 <= j < i ==> (#[trigger] users@[j]).token@ != token@) ==> (r matches Some(
                Identity::User(user),
            ) && same_user(user, users@[i])),
{
    let all = users_view(users@);
    lemma_first_user(all, token@);
    assert forall|i: int| 0 <= i < users@.len() implies (#[trigger] users@[i]).token@
        == all[i].token by {}
    assert(r is None <==> user_with_token(all, token@) is None);
    if let Some(user) = user_with_token(all, token@) {
        let k = choose|i: int|
            0 <= i < all.len() && #[trigger] all[i] == user && user.token == token@ && (forall|
                j: int,
            |
                0 <= j < i ==> (#[trigger] all[j]).token != token@);
        assert(users@[k].token@ == token@);
        assert forall|i: int|
            0 <= i < users@.len() && (#[trigger] users@[i]).token@ == token@ && (forall|j: int|
                0 <= j < i ==> (#[trigger] users@[j]).token@ != token@) implies (r matches Some(
            Identity::User(user),
        ) && same_user(user, users@[i])) by {
            if i < k {
                assert(all[i].token != token@);
            } else if k < i {
                assert(users@[k].token@ != token@);
            }
            match r {
                Some(Identity::User(u)) => {
                    assert(u@ == users@[i]@);
                    assert(u@.vhosts.len() == users@[i]@.vhosts.len());
                    assert forall|n: int| 0 <= n < u.vhosts@.len() implies (
                    #[trigger] u.vhosts@[n])@ == users@[i].vhosts@[n]@ by {
                        assert(u@.vhosts[n] == users@[i]@.vhosts[n]);
                    }
                },
                _ => {},
            }
        }
    } else {
        assert forall|i: int| 0 <= i < users@.len() implies (#[trigger] users@[i]).token@
            != token@ by {
            assert(all[i].token != token@);
        }
    }
}

// Authorization.

/// Whether a client may listen on a port: a user on those that one of the ranges of
/// this user reaches to from both sides, anybody else on those that the system does
/// not hand out for outgoing connections.
pub open spec fn port_granted(identity: Identity, port: u16) -> bool {
    match identity {
        Identity::User(user) => exists|i: int|
            0 <= i < user.ports@.len() && (#[trigger] user.ports@[i]).low <= port
                && port <= user.ports@[i].high,
        _ => port < 32768 || 60999 < port,
    }
}

/// Whether a grant reaches a host: it is the same text, or it is a star before a
/// domain, and the host is that domain with one label in place of the star.
pub open spec fn host_reached(grant: Seq<char>, host: Seq<char>) -> bool {
    host == grant || exists|label: Seq<char>, domain: Seq<char>|
        label.len() > 0 && !label.contains('.') && grant == seq!['*', '.'] + domain && host
            == #[trigger] (label + seq!['.'] + domain)
}

/// Whether a client may serve a virtual host: a user those that a grant of this user
/// reaches, anybody else all.
pub open spec fn host_granted(identity: Identity, host: Seq<char>) -> bool {
    match identity {
        Identity::User(user) => exists|i: int|
            0 <= i < user.vhosts@.len() && host_reached((#[trigger] user.vhosts@[i])@, host),
        _ => true,
    }
}

/// What a client is told that may not listen on a port.
pub open spec fn port_denied(identity: Identity, port: u16) -> Seq<char> {
    "端口 "@ + decimal(port as nat) + if identity is User {
        " 不在授权范围内"@
    } else {
        " 位于系统临时端口区间 32768-60999，不可注册"@
    }
}

/// A client gets a port exactly if it is granted to it, from whichever of the
/// ranges; otherwise it is told why not.
pub proof fn law_authorize_port(identity: &Identity, port: u16, r: Result<(), String>)
    requires
        call_ensures(authorize_port, (identity, port), r),
    ensures
        r is Ok <==> port_granted(*identity, port),
        r matches Err(text) ==> text@ == port_denied(*identity, port),
{
    lemma_port_granted(*identity, port);
}

/// Grants of ports in the two ways they are written.
pub(crate) proof fn lemma_port_granted(identity: Identity, port: u16)
    ensures
        may_use_port(identity@, port) == port_granted(identity, port),
        port_refusal(identity@, port) == port_denied(identity, port),
{
    if let Identity::User(user) = identity {
        if port_granted(identity, port) {
            let i = choose|i: int|
                0 <= i < user.ports@.len() && (#[trigger] user.ports@[i]).low <= port && port
                    <= user.ports@[i].high;
            assert(user@.ports[i].holds(port));
        }
        if may_use_port(identity@, port) {
            let i = choose|i: int|
                0 <= i < user@.ports.len() && (#[trigger] user@.ports[i]).holds(port);
            assert(user.ports@[i].low <= port);
        }
    }
}

proof fn lemma_host_reached(grant: Seq<char>, host: Seq<char>)
    ensures
        covers(grant, host) == host_reached(grant, host),
{
    lemma_before_first(host, '.');
    if covers(grant, host) && host != grant {
        let label = before_first(host, '.');
        let domain = grant.skip(2);
        assert(grant =~= seq!['*', '.'] + domain);
        assert(host =~= label + seq!['.'] + domain);
    }
    if host_reached(grant, host) && host != grant {
        let (label, domain) = choose|label: Seq<char>, domain: Seq<char>|
            label.len() > 0 && !label.contains('.') && grant == seq!['*', '.'] + domain && host
                == #[trigger] (label + seq!['.'] + domain);
        law_wildcard_covers_one_label(label, domain);
    }
}

/// A grant matches a host exactly if it reaches it.
pub proof fn law_vhost_matches(grant: &str, host: &str, yes: bool)
    requires
        call_ensures(vhost_matches, (grant, host), yes),
    ensures
        yes == host_reached(grant@, host@),
{
    lemma_host_reached(grant@, host@);
}

/// Grants of hosts in the two ways they are written.
pub(crate) proof fn lemma_host_granted(identity: Identity, host: Seq<char>)
    ensures
        may_use_vhost(identity@, host) == host_granted(identity, host),
{
    if let Identity::User(user) = identity {
        let grants = user@.vhosts;
        if host_granted(identity, host) {
            let i = choose|i: int|
                0 <= i < user.vhosts@.len() && host_reached((#[trigger] user.vhosts@[i])@, host);
            lemma_host_reached(grants[i], host);
        }
        if may_use_vhost(identity@, host) {
            let i = choose|i: int| 0 <= i < grants.len() && covers(#[trigger] grants[i], host);
            lemma_host_reached(grants[i], host);
            assert(user.vhosts@[i]@ == grants[i]);
        }
    }
}

/// A client gets a virtual host exactly if it is granted to it, by whichever of the
/// grants; otherwise it is told so.
pub proof fn law_authorize_vhost(identity: &Identity, host: &str, r: Result<(), String>)
    requires
        call_ensures(authorize_vhost, (identity, host), r),
    ensures
        r is Ok <==> host_granted(*identity, host@),
        r matches Err(text) ==> text@ == "vhost "@ + host@ + " 不在授权范围内"@,
{
    lemma_host_granted(*identity, host@);
}

/// The content of an identity is all that it holds.
pub proof fn law_identity_content(a: Identity, b: Identity)
    requires
        a@ == b@,
    ensures
        match a {
            Identity::Open => b is Open,
            Identity::Legacy => b is Legacy,
            Identity::User(user) => b matches Identity::User(other) && same_user(user, other),
        },
{
    if let (Identity::User(user), Identity::User(other)) = (a, b) {
        assert(user@.vhosts.len() == user.vhosts@.len());
        assert(other@.vhosts.len() == other.vhosts@.len());
        assert forall|i: int| 0 <= i < user.vhosts@.len() implies (#[trigger] user.vhosts@[i])@
            == other.vhosts@[i]@ by {
            assert(user@.vhosts[i] == other@.vhosts[i]);
        }
    }
}

/// A user may listen on a port exactly if one of the ranges of this user, at whichever
/// place, begins at the port or below and ends at the port or above.
pub proof fn law_user_port(user: User, identity: &Identity, port: u16, r: Result<(), String>)
    requires
        call_ensures(authorize_port, (identity, port), r),
        *identity == Identity::User(user),
    ensures
        r is Ok <==> exists|i: int|
            0 <= i < user.ports@.len() && (#[trigger] user.ports@[i]).low <= port && port
                <= user.ports@[i].high,
{
    law_authorize_port(identity, port, r);
}

/// Anybody else may listen on every port below 32768 and above 60999, and on no other.
pub proof fn law_other_port(identity: &Identity, port: u16, r: Result<(), String>)
    requires
        call_ensures(authorize_port, (identity, port), r),
        !(*identity is User),
    ensures
        r is Ok <==> port < 32768 || port > 60999,
{
}

/// A user may serve every host that is among the granted ones, and every host with one
/// label before a domain that is granted with a star; and no other.
pub proof fn law_user_host(user: User, identity: &Identity, host: &str, r: Result<(), String>)
    requires
        call_ensures(authorize_vhost, (identity, host), r),
        *identity == Identity::User(user),
    ensures
        forall|i: int|
            0 <= i < user.vhosts@.len() && (#[trigger] user.vhosts@[i])@ == host@ ==> r is Ok,
        forall|i: int, label: Seq<char>, domain: Seq<char>|
            #![trigger user.vhosts@[i], label + seq!['.'] + domain]
            0 <= i < user.vhosts@.len() && user.vhosts@[i]@ == seq!['*', '.'] + domain && host@
                == label + seq!['.'] + domain && label.len() > 0 && !label.contains('.') ==> r
                is Ok,
        r is Ok ==> exists|i: int|
            0 <= i < user.vhosts@.len() && ((#[trigger] user.vhosts@[i])@ == host@ || exists|
                label: Seq<char>,
                domain: Seq<char>,
            |
                label.len() > 0 && !label.contains('.') && user.vhosts@[i]@ == seq!['*', '.']
                    + domain && host@ == #[trigger] (label + seq!['.'] + domain)),
{
    law_authorize_vhost(identity, host, r);
    assert forall|i: int| 0 <= i < user.vhosts@.len() && (#[trigger] user.vhosts@[i])@
        == host@ implies r is Ok by {
        assert(host_reached(user.vhosts@[i]@, host@));
    }
    assert forall|i: int, label: Seq<char>, domain: Seq<char>|
        #![trigger user.vhosts@[i], label + seq!['.'] + domain]
        0 <= i < user.vhosts@.len() && user.vhosts@[i]@ == seq!['*', '.'] + domain && host@ == label
            + seq!['.'] + domain && label.len() > 0 && !label.contains('.') implies r is Ok by {
        assert(host_reached(user.vhosts@[i]@, host@));
    }
    if r is Ok {
        let i = choose|i: int|
            0 <= i < user.vhosts@.len() && host_reached((#[trigger] user.vhosts@[i])@, host@);
        assert(0 <= i < user.vhosts@.len());
    }
}

} // verus!
