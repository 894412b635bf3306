//! Whom the client trusts.
use crate::client::config::{ClientConfig, TlsConfig};
use crate::client::tls::{
    accepted, build_connector, candidates, certificate_reads, connector, ders, judge_server_name,
    judge_signature, offered, pem_sections, positions_view, root_store, scheme_algorithms,
    scheme_checks, schemes_view, sections_view, server_name_error, signature_check, tls_connect,
    tls_plan_of, undamaged, undamaged_certificates, verify_handshake_signature, verify_server_cert,
    InvalidFingerprint, SignatureCheck, SignatureError, TlsPlan, Trust,
};
use crate::fingerprint::{
    hex, law_case_ignored, law_separator_ignored, normalize_fingerprint, normalized, sha256,
    sha256_hex, to_hex,
};
use vstd::prelude::*;

verus! {

// Fingerprints.

/// The hexadecimal digits in order.
pub open spec fn hex_digits() -> Seq<char> {
    seq!['0', '1', '2', '3', '4', '5', '6', '7', '8', '9', 'a', 'b', 'c', 'd', 'e', 'f']
}

/// Whether a text is bytes in hexadecimal: the digit for the sixteens of each byte, then
/// the one for its ones.
pub open spec fn is_hex_of(text: Seq<char>, data: Seq<u8>) -> bool {
    &&& text.len() == 2 * data.len()
    &&& forall|i: int|
        0 <= i < data.len() ==> text[2 * i] == hex_digits()[(#[trigger] data[i]) as int / 16] && text[2
            * i + 1] == hex_digits()[data[i] as int % 16]
}

pub(crate) proof fn lemma_is_hex_of(data: Seq<u8>)
    ensures
        is_hex_of(hex(data), data),
    decreases data.len(),
{
    if data.len() > 0 {
        let head = data.drop_last();
        lemma_is_hex_of(head);
        assert forall|i: int| 0 <= i < data.len() implies hex(data)[2 * i] == hex_digits()[(
        #[trigger] data[i]) as int / 16] && hex(data)[2 * i + 1] == hex_digits()[data[i] as int
            % 16] by {
            if i < head.len() {
                assert(head[i] == data[i]);
            }
        }
    }
}

/// Bytes are written in hexadecimal.
pub proof fn law_to_hex(data: &[u8], text: String)
    requires
        call_ensures(to_hex, (data,), text),
    ensures
        is_hex_of(text@, data@),
{
    lemma_is_hex_of(data@);
}

/// A fingerprint is the SHA-256 in hexadecimal, all 64 digits of it.
pub proof fn law_sha256_hex(data: &[u8], text: String)
    requires
        call_ensures(sha256_hex, (data,), text),
    ensures
        is_hex_of(text@, sha256(data@)),
        text@.len() == 64,
{
    lemma_is_hex_of(sha256(data@));
}

/// The hexadecimal digits of a text, in lower case.
pub open spec fn digits_of(s: Seq<char>) -> Seq<char> {
    s.filter(
        |c: char| '0' <= c <= '9' || 'a' <= c <= 'f' || 'A' <= c <= 'F',
    ).map_values(
        |c: char|
            if 'A' <= c <= 'F' {
                (c as u32 - 'A' as u32 + 'a' as u32) as char
            } else {
                c
            },
    )
}

pub(crate) proof fn lemma_digits_of(s: Seq<char>)
    ensures
        normalized(s) == digits_of(s),
    decreases s.len(),
{
    reveal(Seq::filter);
    if s.len() == 0 {
        assert(digits_of(s) =~= Seq::empty());
    } else {
        lemma_digits_of(s.drop_last());
        assert(normalized(s) =~= digits_of(s));
    }
}

/// Of a configured fingerprint the hexadecimal digits count, in either case, and nothing
/// else.
pub proof fn law_normalize_fingerprint(s: &str, text: String)
    requires
        call_ensures(normalize_fingerprint, (s,), text),
    ensures
        text@ == digits_of(s@),
{
    lemma_digits_of(s@);
}

// Plans.

/// Whether connections are rightly secured: not at all if the configuration says so;
/// by the certificate authorities of the system if it names no fingerprint; else by the
/// 64 digits of the fingerprint, and there is no plan if it does not have so many.
pub open spec fn rightly_planned(tls: TlsConfig, plan: Option<TlsPlan>) -> bool {
    if !tls.enabled {
        plan matches Some(p) && p is Plain
    } else {
        match tls.server_fingerprint {
            None => plan matches Some(TlsPlan::Encrypted(trust)) && trust is SystemRoots,
            Some(s) => match plan {
                Some(TlsPlan::Encrypted(Trust::Pinned(fp))) => fp@ == digits_of(s@) && fp@.len()
                    == 64,
                Some(_) => false,
                None => digits_of(s@).len() != 64,
            },
        }
    }
}

pub(crate) proof fn lemma_planned(tls: TlsConfig)
    ensures
        forall|plan: TlsPlan|
            tls_plan_of(tls) == Some(#[trigger] plan@) ==> rightly_planned(tls, Some(plan)),
        tls_plan_of(tls) is None ==> rightly_planned(tls, None),
{
    if let Some(s) = tls.server_fingerprint {
        lemma_digits_of(s@);
    }
}

/// What a fingerprint makes the client trust.
pub proof fn law_connector(fingerprint: Option<&str>, r: Result<Trust, InvalidFingerprint>)
    requires
        call_ensures(connector, (fingerprint,), r),
    ensures
        match fingerprint {
            None => r matches Ok(trust) && trust is SystemRoots,
            Some(s) => match r {
                Ok(Trust::Pinned(fp)) => fp@ == digits_of(s@) && fp@.len() == 64,
                Ok(_) => false,
                Err(_) => digits_of(s@).len() != 64,
            },
        },
{
    if let Some(s) = fingerprint {
        lemma_digits_of(s@);
    }
}

/// Connections are secured as the configuration says.
pub proof fn law_build_connector(cfg: &ClientConfig, r: Result<TlsPlan, InvalidFingerprint>)
    requires
        call_ensures(build_connector, (cfg,), r),
    ensures
        match r {
            Ok(plan) => rightly_planned(cfg.tls, Some(plan)),
            Err(_) => rightly_planned(cfg.tls, None),
        },
{
    lemma_planned(cfg.tls);
}

/// Whoever configures the fingerprint of a certificate, in either case and with whatever
/// between the digits, gets encrypted connections that pin exactly this fingerprint; of
/// all certificates those with the same fingerprint are accepted, and no others.
pub proof fn law_configured_fingerprint_is_pinned(
    cfg: &ClientConfig,
    configured: String,
    cert: &[u8],
    fingerprint: String,
    r: Result<TlsPlan, InvalidFingerprint>,
    presented: &[u8],
    presented_fingerprint: String,
)
    requires
        cfg.tls.enabled,
        cfg.tls.server_fingerprint == Some(configured),
        call_ensures(sha256_hex, (cert,), fingerprint),
        configured@.filter(
            |c: char| '0' <= c <= '9' || 'a' <= c <= 'f' || 'A' <= c <= 'F',
        ).map_values(
            |c: char|
                if 'A' <= c <= 'F' {
                    (c as u32 - 'A' as u32 + 'a' as u32) as char
                } else {
                    c
                },
        ) == fingerprint@,
        call_ensures(build_connector, (cfg,), r),
        call_ensures(sha256_hex, (presented,), presented_fingerprint),
    ensures
        r matches Ok(TlsPlan::Encrypted(Trust::Pinned(fp))) && fp@ == fingerprint@ && (forall|
            yes: bool,
        | #[trigger]
            call_ensures(verify_server_cert, (&fp, presented), yes) ==> yes == (
            presented_fingerprint@ == fingerprint@)),
{
    law_build_connector(cfg, r);
    assert(digits_of(configured@) == fingerprint@);
}

/// A certificate is accepted exactly if its fingerprint is the pinned one.
pub proof fn law_verify_server_cert(pinned: &String, cert: &[u8], fingerprint: String, yes: bool)
    requires
        call_ensures(verify_server_cert, (pinned, cert), yes),
        call_ensures(sha256_hex, (cert,), fingerprint),
    ensures
        yes == (fingerprint@ == pinned@),
{
}

/// Without encryption every address will do; with it, one that is no name of a server is
/// refused with the reason.
pub proof fn law_judge_server_name(
    plan: &TlsPlan,
    error: Option<String>,
    r: Result<(), String>,
)
    requires
        call_ensures(judge_server_name, (plan, error), r),
    ensures
        match error {
            Some(reason) => if *plan is Encrypted {
                r matches Err(text) && text@ == "server_addr 不能用作 TLS SNI: "@ + reason@
            } else {
                r is Ok
            },
            None => r is Ok,
        },
{
}

/// The same of the address itself.
pub proof fn law_tls_connect(plan: &TlsPlan, server_addr: &str, r: Result<(), String>)
    requires
        call_ensures(tls_connect, (plan, server_addr), r),
    ensures
        match server_name_error(server_addr@) {
            Some(reason) => if *plan is Encrypted {
                r matches Err(text) && text@ == "server_addr 不能用作 TLS SNI: "@ + reason
            } else {
                r is Ok
            },
            None => r is Ok,
        },
{
}

// Certificate authorities.

/// The sections that are not damaged.
pub open spec fn whole_sections(list: Seq<Option<Seq<u8>>>) -> Seq<Seq<u8>> {
    list.filter(|s: Option<Seq<u8>>| s is Some).map_values(|s: Option<Seq<u8>>| s->0)
}

proof fn lemma_whole_sections(list: Seq<Option<Seq<u8>>>)
    ensures
        undamaged(list) == whole_sections(list),
    decreases list.len(),
{
    reveal(Seq::filter);
    if list.len() == 0 {
        assert(whole_sections(list) =~= Seq::empty());
    } else {
        lemma_whole_sections(list.drop_last());
        assert(undamaged(list) =~= whole_sections(list));
    }
}

/// Whether two lists hold the same certificates in the same order.
pub open spec fn same_certificates(certs: Seq<Vec<u8>>, expected: Seq<Seq<u8>>) -> bool {
    certs.len() == expected.len() && forall|i: int|
        0 <= i < certs.len() ==> (#[trigger] certs[i])@ == expected[i]
}

/// Damaged sections are passed over, and all others kept, in order.
pub proof fn law_undamaged_certificates(list: &Vec<Option<Vec<u8>>>, certs: Vec<Vec<u8>>)
    requires
        call_ensures(undamaged_certificates, (list,), certs),
    ensures
        same_certificates(
            certs@,
            whole_sections(
                list@.map_values(
                    |s: Option<Vec<u8>>|
                        match s {
                            Some(der) => Some(der@),
                            None => None,
                        },
                ),
            ),
        ),
{
    let sections = list@.map_values(
        |s: Option<Vec<u8>>|
            match s {
                Some(der) => Some(der@),
                None => None,
            },
    );
    assert(sections =~= sections_view(list@));
    lemma_whole_sections(sections);
    lemma_same_certificates(certs@);
}

proof fn lemma_same_certificates(certs: Seq<Vec<u8>>)
    ensures
        same_certificates(certs, ders(certs)),
{
}

/// The certificate authorities of a bundle are its sections that are not damaged.
pub proof fn law_root_store(pem: &[u8], certs: Vec<Vec<u8>>)
    requires
        call_ensures(root_store, (pem,), certs),
    ensures
        same_certificates(certs@, whole_sections(pem_sections(pem@))),
{
    lemma_whole_sections(pem_sections(pem@));
    lemma_same_certificates(certs@);
}

// Handshake signatures.

/// Whether the first algorithm that fits finds the signature valid: `says` is what each
/// of `n` algorithms says.
pub open spec fn first_fitting_accepts(n: nat, says: spec_fn(nat) -> SignatureCheck) -> bool {
    exists|k: nat|
        k < n && #[trigger] says(k) == SignatureCheck::Valid && (forall|j: nat|
            j < k ==> #[trigger] says(j) == SignatureCheck::Unsupported)
}

proof fn lemma_first_fitting(checks: Seq<SignatureCheck>, says: spec_fn(nat) -> SignatureCheck)
    requires
        forall|i: int| 0 <= i < checks.len() ==> #[trigger] checks[i] == says(i as nat),
    ensures
        accepted(checks) == first_fitting_accepts(checks.len(), says),
{
    if accepted(checks) {
        let i = choose|i: int|
            0 <= i < checks.len() && #[trigger] checks[i] == SignatureCheck::Valid && (forall|
                j: int,
            |
                0 <= j < i ==> #[trigger] checks[j] == SignatureCheck::Unsupported);
        assert(says(i as nat) == SignatureCheck::Valid);
        assert forall|j: nat| j < i implies #[trigger] says(j) == SignatureCheck::Unsupported by {
            assert(checks[j as int] == says(j));
        }
    }
    if first_fitting_accepts(checks.len(), says) {
        let k = choose|k: nat|
            k < checks.len() && #[trigger] says(k) == SignatureCheck::Valid && (forall|j: nat|
                j < k ==> #[trigger] says(j) == SignatureCheck::Unsupported);
        assert(checks[k as int] == SignatureCheck::Valid);
        assert forall|j: int| 0 <= j < k implies #[trigger] checks[j]
            == SignatureCheck::Unsupported by {
            assert(says(j as nat) == SignatureCheck::Unsupported);
        }
    }
}

/// A signature is judged by what the algorithms say: there must be one, the certificate
/// must be readable, and the first algorithm that fits must accept it.
pub proof fn law_judge_signature(
    readable: bool,
    checks: &Vec<SignatureCheck>,
    r: Result<(), SignatureError>,
)
    requires
        call_ensures(judge_signature, (readable, checks), r),
    ensures
        r == Err::<(), SignatureError>(SignatureError::UnadvertisedScheme) <==> checks@.len() == 0,
        r == Err::<(), SignatureError>(SignatureError::BadEncoding) <==> checks@.len() > 0
            && !readable,
        r is Ok <==> readable && first_fitting_accepts(
            checks@.len(),
            |k: nat| checks@[k as int],
        ),
{
    let says = |k: nat| checks@[k as int];
    lemma_first_fitting(checks@, says);
}

/// Whether a scheme has an algorithm with this number at this place of a list.
pub open spec fn has_algorithm(list: Seq<(u16, usize)>, scheme: u16, at: int, index: int) -> bool {
    0 <= at < list.len() && list[at].0 == scheme && 0 <= index < list[at].1
}

/// The algorithms of a scheme are those that stand with it in the list, each once, in the
/// order of the list.
pub proof fn law_scheme_algorithms(
    list: &Vec<(u16, usize)>,
    scheme: u16,
    found: Vec<(usize, usize)>,
)
    requires
        call_ensures(scheme_algorithms, (list, scheme), found),
    ensures
        forall|at: int, index: int| #[trigger]
            has_algorithm(list@, scheme, at, index) ==> exists|i: int|
                0 <= i < found@.len() && (#[trigger] found@[i]).0 == at && found@[i].1 == index,
        forall|i: int|
            0 <= i < found@.len() ==> has_algorithm(
                list@,
                scheme,
                (#[trigger] found@[i]).0 as int,
                found@[i].1 as int,
            ),
        forall|i: int, j: int|
            0 <= i < j < found@.len() ==> (#[trigger] found@[i]).0 < (#[trigger] found@[j]).0 || (
            found@[i].0 == found@[j].0 && found@[i].1 < found@[j].1),
{
    let all = schemes_view(list@);
    let c = candidates(all, scheme);
    lemma_candidates_exact(all, scheme);
    assert(positions_view(found@).len() == found@.len());
    assert forall|i: int| 0 <= i < found@.len() implies c[i] == (
        (#[trigger] found@[i]).0 as nat,
        found@[i].1 as nat,
    ) by {
        assert(positions_view(found@)[i] == c[i]);
    }
    assert forall|at: int, index: int| #[trigger]
        has_algorithm(list@, scheme, at, index) implies exists|i: int|
        0 <= i < found@.len() && (#[trigger] found@[i]).0 == at && found@[i].1 == index by {
        assert(all[at] == (list@[at].0, list@[at].1 as nat));
        assert(counts(all, scheme, at as nat, index as nat));
        let i = choose|i: int| 0 <= i < c.len() && #[trigger] c[i] == (at as nat, index as nat);
        assert(found@[i].0 == at);
    }
    assert forall|i: int| 0 <= i < found@.len() implies has_algorithm(
        list@,
        scheme,
        (#[trigger] found@[i]).0 as int,
        found@[i].1 as int,
    ) by {
        let at = c[i].0 as int;
        assert(all[at] == (list@[at].0, list@[at].1 as nat));
    }
    assert forall|i: int, j: int| 0 <= i < j < found@.len() implies (#[trigger] found@[i]).0 < (
    #[trigger] found@[j]).0 || (found@[i].0 == found@[j].0 && found@[i].1 < found@[j].1) by {
        assert(c[i].0 < c[j].0 || (c[i].0 == c[j].0 && c[i].1 < c[j].1));
    }
}

/// As [`has_algorithm`], of the content of a list.
spec fn counts(list: Seq<(u16, nat)>, scheme: u16, at: nat, index: nat) -> bool {
    at < list.len() && list[at as int].0 == scheme && index < list[at as int].1
}

proof fn lemma_candidates_exact(list: Seq<(u16, nat)>, scheme: u16)
    ensures
        forall|at: nat, index: nat| #[trigger]
            counts(list, scheme, at, index) ==> exists|i: int|
                0 <= i < candidates(list, scheme).len() && #[trigger] candidates(list, scheme)[i]
                    == (at, index),
        forall|i: int|
            0 <= i < candidates(list, scheme).len() ==> (#[trigger] candidates(list, scheme)[i]).0
                < list.len() && list[candidates(list, scheme)[i].0 as int].0 == scheme
                && candidates(list, scheme)[i].1 < list[candidates(list, scheme)[i].0 as int].1,
        forall|i: int, j: int|
            0 <= i < j < candidates(list, scheme).len() ==> (#[trigger] candidates(
                list,
                scheme,
            )[i]).0 < (#[trigger] candidates(list, scheme)[j]).0 || (candidates(list, scheme)[i].0
                == candidates(list, scheme)[j].0 && candidates(list, scheme)[i].1 < candidates(
                list,
                scheme,
            )[j].1),
    decreases list.len(),
{
    if list.len() > 0 {
        let head = list.drop_last();
        let before = candidates(head, scheme);
        let c = candidates(list, scheme);
        lemma_candidates_exact(head, scheme);
        assert forall|at: nat, index: nat| #[trigger]
            counts(list, scheme, at, index) implies exists|i: int|
            0 <= i < c.len() && #[trigger] c[i] == (at, index) by {
            if at < head.len() {
                assert(counts(head, scheme, at, index));
                let i = choose|i: int|
                    0 <= i < before.len() && #[trigger] before[i] == (at, index);
                assert(c[i] == before[i]);
            } else {
                let i = before.len() + index as int;
                assert(c[i] == (at, index));
            }
        }
        assert forall|i: int| 0 <= i < c.len() implies (#[trigger] c[i]).0 < list.len() && list[
            c[i].0 as int
        ].0 == scheme && c[i].1 < list[c[i].0 as int].1 by {
            if i < before.len() {
                assert(c[i] == before[i]);
                assert(head[before[i].0 as int] == list[before[i].0 as int]);
            }
        }
        assert forall|i: int, j: int| 0 <= i < j < c.len() implies (#[trigger] c[i]).0 < (
        #[trigger] c[j]).0 || (c[i].0 == c[j].0 && c[i].1 < c[j].1) by {
            if i < before.len() {
                assert(c[i] == before[i]);
                if j < before.len() {
                    assert(c[j] == before[j]);
                }
            }
        }
    }
}

/// With a scheme that stands once in a list, its algorithms are numbered from zero.
proof fn lemma_candidates_of(list: Seq<(u16, nat)>, scheme: u16, at: int)
    requires
        0 <= at < list.len(),
        list[at].0 == scheme,
        forall|i: int| 0 <= i < list.len() && i != at ==> (#[trigger] list[i]).0 != scheme,
    ensures
        candidates(list, scheme) == Seq::new(list[at].1, |i: int| (at as nat, i as nat)),
    decreases list.len(),
{
    let head = list.drop_last();
    assert forall|i: int| 0 <= i < head.len() implies head[i] == list[i] by {}
    if at == list.len() - 1 {
        lemma_no_candidates(head, scheme);
        assert(candidates(list, scheme) =~= Seq::new(list[at].1, |i: int| (at as nat, i as nat)));
    } else {
        assert(list[list.len() - 1].0 != scheme);
        assert forall|i: int| 0 <= i < head.len() && i != at implies (#[trigger] head[i]).0
            != scheme by {
            assert(head[i] == list[i]);
        }
        lemma_candidates_of(head, scheme, at);
    }
}

proof fn lemma_no_candidates(list: Seq<(u16, nat)>, scheme: u16)
    requires
        forall|i: int| 0 <= i < list.len() ==> (#[trigger] list[i]).0 != scheme,
    ensures
        candidates(list, scheme) == Seq::<(nat, nat)>::empty(),
    decreases list.len(),
{
    if list.len() > 0 {
        let head = list.drop_last();
        assert forall|i: int| 0 <= i < head.len() implies (#[trigger] head[i]).0 != scheme by {
            assert(head[i] == list[i]);
        }
        lemma_no_candidates(head, scheme);
    }
}

/// A handshake signature with the scheme at `at` in the list of those that are offered is
/// accepted exactly if the certificate can be read and the first algorithm of the scheme
/// that fits its key finds the signature valid; one with a scheme that is not offered is
/// refused.
pub proof fn law_verify_handshake_signature(
    message: &[u8],
    cert: &[u8],
    scheme: u16,
    signature: &[u8],
    r: Result<(), SignatureError>,
)
    requires
        call_ensures(verify_handshake_signature, (message, cert, scheme, signature), r),
    ensures
        r == Err::<(), SignatureError>(SignatureError::UnadvertisedScheme) <==> forall|at: int|
            0 <= at < offered().len() ==> (#[trigger] offered()[at]).0 != scheme,
        forall|at: int|
            0 <= at < offered().len() && (#[trigger] offered()[at]).0 == scheme ==> {
                &&& r == Err::<(), SignatureError>(SignatureError::BadEncoding)
                    <==> !certificate_reads(cert@)
                &&& r is Ok <==> certificate_reads(cert@) && first_fitting_accepts(
                    offered()[at].1,
                    |k: nat| signature_check(at as nat, k, cert@, message@, signature@),
                )
            },
{
    let all = offered();
    let checks = scheme_checks(scheme, cert@, message@, signature@);
    assert forall|at: int| 0 <= at < all.len() && (#[trigger] all[at]).0 == scheme implies {
        &&& r == Err::<(), SignatureError>(SignatureError::BadEncoding) <==> !certificate_reads(
            cert@,
        )
        &&& r is Ok <==> certificate_reads(cert@) && first_fitting_accepts(
            all[at].1,
            |k: nat| signature_check(at as nat, k, cert@, message@, signature@),
        )
        &&& checks.len() > 0
    } by {
        lemma_candidates_of(all, scheme, at);
        let says = |k: nat| signature_check(at as nat, k, cert@, message@, signature@);
        assert(checks.len() == all[at].1);
        lemma_first_fitting(checks, says);
    }
    if forall|at: int| 0 <= at < all.len() ==> (#[trigger] all[at]).0 != scheme {
        lemma_no_candidates(all, scheme);
        assert(checks.len() == 0);
    }
}

/// An enabled configuration without a fingerprint leaves it to the certificate
/// authorities of the system; one that is not enabled gives plain text, and no other
/// does.
pub proof fn law_plan_without_fingerprint(
    cfg: &ClientConfig,
    r: Result<TlsPlan, InvalidFingerprint>,
)
    requires
        call_ensures(build_connector, (cfg,), r),
    ensures
        cfg.tls.enabled && cfg.tls.server_fingerprint is None ==> r == Ok::<
            TlsPlan,
            InvalidFingerprint,
        >(TlsPlan::Encrypted(Trust::SystemRoots)),
        r matches Ok(plan) && plan is Plain <==> !cfg.tls.enabled,
{
}

/// Whatever stands in a fingerprint beside its digits does not matter, nor does their
/// case: the same plan comes of it.
pub proof fn law_separators_and_case_do_not_matter(
    a: &ClientConfig,
    b: &ClientConfig,
    before: Seq<char>,
    c: char,
    after: Seq<char>,
    written: String,
    plain: String,
    r: Result<TlsPlan, InvalidFingerprint>,
    s: Result<TlsPlan, InvalidFingerprint>,
)
    requires
        a.tls.enabled,
        b.tls.enabled,
        a.tls.server_fingerprint == Some(written),
        b.tls.server_fingerprint == Some(plain),
        written@ == before + seq![c] + after,
        !('0' <= c <= '9' || 'a' <= c <= 'f'),
        plain@ == if 'A' <= c <= 'F' {
            before + seq![(c as u32 + 32) as char] + after
        } else {
            before + after
        },
        call_ensures(build_connector, (a,), r),
        call_ensures(build_connector, (b,), s),
    ensures
        match (r, s) {
            (
                Ok(TlsPlan::Encrypted(Trust::Pinned(x))),
                Ok(TlsPlan::Encrypted(Trust::Pinned(y))),
            ) => x@ == y@,
            (Err(_), Err(_)) => true,
            _ => false,
        },
{
    if 'A' <= c <= 'F' {
        let d = (c as u32 + 32) as char;
        law_case_ignored(before, c, d, after);
    } else {
        law_separator_ignored(before, c, after);
    }
}

} // verus!
