//! The configuration of the server.
use crate::laws::access::{lemma_rightly_ranged, rightly_ranged};
use crate::server::auth::{port_range, texts, users_view, AuthPolicy, PortRange, User, UserView};
use crate::server::config::{
    ranges_of, user_of, users_of, PolicyError, PolicyErrorView, ServerConfig, UserConfig,
};
use vstd::prelude::*;

verus! {

/// Whether a text denotes a range.
pub open spec fn is_range(s: Seq<char>) -> bool {
    exists|range: PortRange| #[trigger] rightly_ranged(s, Some(range))
}

/// Whether every text of an entry denotes a range.
pub open spec fn describes_user(c: UserConfig) -> bool {
    forall|i: int| 0 <= i < c.ports@.len() ==> is_range((#[trigger] c.ports@[i])@)
}

proof fn lemma_ranges(list: Seq<Seq<char>>)
    ensures
        match ranges_of(list) {
            Ok(ranges) => ranges.len() == list.len() && forall|i: int|
                0 <= i < list.len() ==> rightly_ranged(list[i], Some(#[trigger] ranges[i])),
            Err(bad) => exists|k: int|
                0 <= k < list.len() && #[trigger] list[k] == bad && rightly_ranged(bad, None) && (
                forall|i: int|
                    0 <= i < k ==> is_range(#[trigger] list[i])),
        },
    decreases list.len(),
{
    if list.len() > 0 {
        let head = list.drop_last();
        lemma_ranges(head);
        lemma_rightly_ranged(list.last());
        match ranges_of(head) {
            Ok(ranges) => {
                match port_range(list.last()) {
                    Some(range) => {
                        let all = ranges.push(range);
                        assert forall|i: int| 0 <= i < list.len() implies rightly_ranged(
                            list[i],
                            Some(#[trigger] all[i]),
                        ) by {
                            if i < head.len() {
                                assert(head[i] == list[i]);
                                assert(all[i] == ranges[i]);
                            }
                        }
                    },
                    None => {
                        let k = list.len() - 1;
                        assert(list[k] == list.last());
                        assert forall|i: int| 0 <= i < k implies is_range(#[trigger] list[i]) by {
                            assert(rightly_ranged(head[i], Some(ranges[i])));
                            assert(head[i] == list[i]);
                        }
                    },
                }
            },
            Err(bad) => {
                let k = choose|k: int|
                    0 <= k < head.len() && #[trigger] head[k] == bad && (forall|i: int|
                        0 <= i < k ==> is_range(#[trigger] head[i]));
                assert(list[k] == bad);
                assert forall|i: int| 0 <= i < k implies is_range(#[trigger] list[i]) by {
                    assert(head[i] == list[i]);
                }
            },
        }
    }
}

/// Whether an entry is rightly taken for a user: with its name, its token, its hosts and
/// the ranges that its texts denote, all in order. It is refused exactly if one of the
/// texts denotes no range, and the first such text is named.
pub open spec fn rightly_described(c: UserConfig, r: Result<User, PolicyError>) -> bool {
    match r {
        Ok(user) => {
            &&& user.name@ == c.name@
            &&& user.token@ == c.token@
            &&& user.ports@.len() == c.ports@.len()
            &&& forall|i: int|
                0 <= i < c.ports@.len() ==> rightly_ranged(
                    (#[trigger] c.ports@[i])@,
                    Some(user.ports@[i]),
                )
            &&& user.vhosts@.len() == c.vhosts@.len()
            &&& forall|i: int|
                0 <= i < c.vhosts@.len() ==> user.vhosts@[i]@ == (#[trigger] c.vhosts@[i])@
        },
        Err(e) => e.user@ == c.name@ && exists|k: int|
            0 <= k < c.ports@.len() && (#[trigger] c.ports@[k])@ == e.ports@ && rightly_ranged(
                e.ports@,
                None,
            ) && (forall|i: int|
                0 <= i < k ==> is_range((#[trigger] c.ports@[i])@)),
    }
}

proof fn lemma_described(c: UserConfig, r: Result<User, PolicyError>)
    requires
        match r {
            Ok(user) => user_of(c) matches Ok(u) && u == user@,
            Err(e) => user_of(c) matches Err(f) && f == e@,
        },
    ensures
        rightly_described(c, r),
{
    let list = texts(c.ports@);
    lemma_ranges(list);
    assert(list.len() == c.ports@.len());
    assert forall|i: int| 0 <= i < c.ports@.len() implies list[i] == (
    #[trigger] c.ports@[i])@ by {}
    match r {
        Ok(user) => {
            assert(texts(user.vhosts@).len() == user.vhosts@.len());
            assert(texts(c.vhosts@).len() == c.vhosts@.len());
            assert forall|i: int| 0 <= i < c.vhosts@.len() implies user.vhosts@[i]@ == (
            #[trigger] c.vhosts@[i])@ by {
                assert(texts(user.vhosts@)[i] == texts(c.vhosts@)[i]);
            }
            assert forall|i: int| 0 <= i < c.ports@.len() implies rightly_ranged(
                (#[trigger] c.ports@[i])@,
                Some(user.ports@[i]),
            ) by {
                assert(rightly_ranged(list[i], Some(user.ports@[i])));
            }
        },
        Err(e) => {
            let k = choose|k: int|
                0 <= k < list.len() && #[trigger] list[k] == e.ports@ && (forall|i: int|
                    0 <= i < k ==> is_range(#[trigger] list[i]));
            assert(c.ports@[k]@ == e.ports@);
            assert forall|i: int| 0 <= i < k implies is_range((#[trigger] c.ports@[i])@) by {
                assert(list[i] == c.ports@[i]@);
            }
        },
    }
}

/// An entry is taken for the user that it describes.
pub proof fn law_user(c: &UserConfig, r: Result<User, PolicyError>)
    requires
        call_ensures(UserConfig::user, (c,), r),
    ensures
        rightly_described(*c, r),
{
    lemma_described(*c, r);
}

proof fn lemma_users(list: Seq<UserConfig>)
    ensures
        match users_of(list) {
            Ok(users) => users.len() == list.len() && forall|i: int|
                0 <= i < list.len() ==> user_of(#[trigger] list[i]) == Ok::<
                    UserView,
                    PolicyErrorView,
                >(users[i]),
            Err(e) => exists|k: int|
                0 <= k < list.len() && user_of(#[trigger] list[k]) == Err::<
                    UserView,
                    PolicyErrorView,
                >(e) && (forall|i: int| 0 <= i < k ==> user_of(#[trigger] list[i]) is Ok),
        },
    decreases list.len(),
{
    if list.len() > 0 {
        let head = list.drop_last();
        lemma_users(head);
        assert forall|i: int| 0 <= i < head.len() implies head[i] == #[trigger] list[i] by {}
        match users_of(head) {
            Ok(users) => {
                if user_of(list.last()) is Err {
                    assert(list[list.len() - 1] == list.last());
                }
            },
            Err(e) => {
                let k = choose|k: int|
                    0 <= k < head.len() && user_of(#[trigger] head[k]) == Err::<
                        UserView,
                        PolicyErrorView,
                    >(e) && (forall|i: int| 0 <= i < k ==> user_of(#[trigger] head[i]) is Ok);
                assert(head[k] == list[k]);
                assert forall|i: int| 0 <= i < k implies user_of(#[trigger] list[i]) is Ok by {
                    assert(head[i] == list[i]);
                }
            },
        }
    }
}

/// With users, every entry is a user, in order, and the first that describes none is
/// reported; the single token does not count beside them. Without users the single token
/// counts, and without either every client is admitted.
pub proof fn law_auth_policy(c: &ServerConfig, r: Result<AuthPolicy, PolicyError>)
    requires
        call_ensures(ServerConfig::auth_policy, (c,), r),
    ensures
        if c.users@.len() == 0 {
            if c.token@.len() == 0 {
                r matches Ok(policy) && policy is Open
            } else {
                r matches Ok(AuthPolicy::Legacy(token)) && token@ == c.token@
            }
        } else {
            match r {
                Ok(AuthPolicy::Users(users)) => users@.len() == c.users@.len() && forall|i: int|
                    0 <= i < users@.len() ==> rightly_described(
                        c.users@[i],
                        Ok(#[trigger] users@[i]),
                    ),
                Ok(_) => false,
                Err(e) => exists|k: int|
                    0 <= k < c.users@.len() && rightly_described(#[trigger] c.users@[k], Err(e)) && (
                    forall|i: int| 0 <= i < k ==> describes_user(#[trigger] c.users@[i])),
            }
        },
{
    if c.users@.len() > 0 {
        lemma_users(c.users@);
        match r {
            Ok(AuthPolicy::Users(users)) => {
                assert(users_view(users@).len() == users@.len());
                assert forall|i: int| 0 <= i < users@.len() implies rightly_described(
                    c.users@[i],
                    Ok(#[trigger] users@[i]),
                ) by {
                    assert(users_view(users@)[i] == users@[i]@);
                    lemma_described(c.users@[i], Ok(users@[i]));
                }
            },
            Ok(_) => {},
            Err(e) => {
                let k = choose|k: int|
                    0 <= k < c.users@.len() && user_of(#[trigger] c.users@[k]) == Err::<
                        UserView,
                        PolicyErrorView,
                    >(e@) && (forall|i: int| 0 <= i < k ==> user_of(#[trigger] c.users@[i]) is Ok);
                lemma_described(c.users@[k], Err(e));
                assert forall|i: int| 0 <= i < k implies describes_user(
                    #[trigger] c.users@[i],
                ) by {
                    let list = texts(c.users@[i].ports@);
                    lemma_ranges(list);
                    assert forall|n: int| 0 <= n < c.users@[i].ports@.len() implies is_range(
                        (#[trigger] c.users@[i].ports@[n])@,
                    ) by {
                        assert(list[n] == c.users@[i].ports@[n]@);
                        assert(rightly_ranged(list[n], Some(ranges_of(list)->Ok_0[n])));
                    }
                }
            },
        }
    }
}

} // verus!
