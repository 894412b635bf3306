//! The client's trust in the server: a pinned certificate fingerprint, or the
//! certificate authorities of the system.
use crate::client::config::{ClientConfig, TlsConfig};
use crate::fingerprint::{
    hex, lemma_hex, normalize_fingerprint, normalized, sha256, sha256_hex,
};
use crate::msg::opt_text;
use crate::text::joined;
use vstd::prelude::*;

verus! {

// What to trust.

/// What makes the client trust a server.
#[derive(Debug, Clone, PartialEq)]
pub enum Trust {
    /// The fingerprint of its certificate.
    Pinned(String),
    /// A certificate authority of the system.
    SystemRoots,
}

/// The mathematical content of a [`Trust`].
pub enum TrustView {
    Pinned(Seq<char>),
    SystemRoots,
}

impl View for Trust {
    type V = TrustView;

    open spec fn view(&self) -> TrustView {
        match self {
            Trust::Pinned(fp) => TrustView::Pinned(fp@),
            Trust::SystemRoots => TrustView::SystemRoots,
        }
    }
}

/// How the client secures its connections.
#[derive(Debug, Clone, PartialEq)]
pub enum TlsPlan {
    /// Not at all; only if the configuration says so.
    Plain,
    /// With TLS.
    Encrypted(Trust),
}

/// The mathematical content of a [`TlsPlan`].
pub enum TlsPlanView {
    Plain,
    Encrypted(TrustView),
}

impl View for TlsPlan {
    type V = TlsPlanView;

    open spec fn view(&self) -> TlsPlanView {
        match self {
            TlsPlan::Plain => TlsPlanView::Plain,
            TlsPlan::Encrypted(trust) => TlsPlanView::Encrypted(trust@),
        }
    }
}

/// A configured fingerprint that does not have the 64 digits of a SHA-256.
#[derive(Debug, Clone, Copy, PartialEq, Eq, Structural)]
pub struct InvalidFingerprint;

/// What a configured fingerprint makes the client trust; `None` is no
/// fingerprint that could be pinned.
pub open spec fn trust_of(fingerprint: Option<Seq<char>>) -> Option<TrustView> {
    match fingerprint {
        None => Some(TrustView::SystemRoots),
        Some(s) => if normalized(s).len() == 64 {
            Some(TrustView::Pinned(normalized(s)))
        } else {
            None
        },
    }
}

/// Decides what to trust.
pub fn connector(fingerprint: Option<&str>) -> (r: Result<Trust, InvalidFingerprint>)
    ensures
        match fingerprint {
            Some(s) => match r {
                Ok(trust) => trust_of(Some(s@)) == Some(trust@),
                Err(_) => trust_of(Some(s@)) is None,
            },
            None => r matches Ok(trust) && trust@ == TrustView::SystemRoots,
        },
{
    match fingerprint {
        None => Ok(Trust::SystemRoots),
        Some(s) => {
            let fp = normalize_fingerprint(s);
            if fp.as_str().unicode_len() == 64 {
                Ok(Trust::Pinned(fp))
            } else {
                Err(InvalidFingerprint)
            }
        },
    }
}

/// How a configuration secures connections; `None` for a fingerprint that could
/// not be pinned.
pub open spec fn tls_plan_of(c: TlsConfig) -> Option<TlsPlanView> {
    if !c.enabled {
        Some(TlsPlanView::Plain)
    } else {
        match trust_of(opt_text(c.server_fingerprint)) {
            Some(trust) => Some(TlsPlanView::Encrypted(trust)),
            None => None,
        }
    }
}

/// Decides how to secure connections. Plain text is never chosen unless the
/// configuration asks for it.
pub fn build_connector(cfg: &ClientConfig) -> (r: Result<TlsPlan, InvalidFingerprint>)
    ensures
        match r {
            Ok(plan) => tls_plan_of(cfg.tls) == Some(plan@),
            Err(_) => tls_plan_of(cfg.tls) is None,
        },
{
    if !cfg.tls.enabled {
        return Ok(TlsPlan::Plain);
    }
    let fingerprint: Option<&str> = match &cfg.tls.server_fingerprint {
        Some(s) => Some(s.as_str()),
        None => None,
    };
    match connector(fingerprint) {
        Ok(trust) => Ok(TlsPlan::Encrypted(trust)),
        Err(e) => Err(e),
    }
}

/// Plain text is used exactly if the configuration turns encryption off.
pub proof fn law_plain_only_on_request(c: TlsConfig)
    ensures
        tls_plan_of(c) == Some(TlsPlanView::Plain) <==> !c.enabled,
{
}

/// Whether a certificate has the pinned fingerprint.
pub open spec fn pin_accepts(pinned: Seq<char>, cert: Seq<u8>) -> bool {
    hex(sha256(cert)) == pinned
}

/// Whether a certificate has the pinned fingerprint.
pub fn verify_server_cert(pinned: &String, cert: &[u8]) -> (yes: bool)
    ensures
        yes == pin_accepts(pinned@, cert@),
{
    sha256_hex(cert) == *pinned
}

/// Whoever configures the fingerprint of a certificate, in either case and with
/// any separators, pins certificates with the same SHA-256 and no others.
pub proof fn law_pinned_certificate(configured: Seq<char>, cert: Seq<u8>, presented: Seq<u8>)
    requires
        sha256(cert).len() == 32,
        normalized(configured) == hex(sha256(cert)),
    ensures
        trust_of(Some(configured)) == Some(TrustView::Pinned(hex(sha256(cert)))),
        pin_accepts(hex(sha256(cert)), presented) <==> hex(sha256(presented)) == hex(sha256(cert)),
        pin_accepts(hex(sha256(cert)), cert),
{
    lemma_hex(sha256(cert));
}

// Server names.

/// Why `rustls_pki_types` does not take a text for the name of a server; `None`
/// if it does.
pub uninterp spec fn server_name_error(addr: Seq<char>) -> Option<Seq<char>>;

/// Recognises the name of a server with `rustls_pki_types::ServerName::try_from`.
///
/// Trusted: the outcome depends on the text alone.
#[verifier::external_body]
fn recognise_server_name(addr: &str) -> (error: Option<String>)
    ensures
        server_name_error(addr@) == opt_text(error),
{
    rustls_pki_types::ServerName::try_from(addr).err().map(|e| e.to_string())
}

/// Why the handshake with a server cannot begin, given why its configured address
/// is no name if it is none. Without TLS any address will do.
pub open spec fn name_problem(plan: TlsPlanView, error: Option<Seq<char>>) -> Option<Seq<char>> {
    match (plan, error) {
        (TlsPlanView::Encrypted(_), Some(reason)) => Some(
            "server_addr 不能用作 TLS SNI: "@ + reason,
        ),
        _ => None,
    }
}

/// Decides whether the handshake with a server can begin, given why its
/// configured address is no name if it is none.
pub fn judge_server_name(plan: &TlsPlan, error: Option<String>) -> (r: Result<(), String>)
    ensures
        match r {
            Ok(_) => name_problem(plan@, opt_text(error)) is None,
            Err(text) => name_problem(plan@, opt_text(error)) == Some(text@),
        },
{
    match (plan, error) {
        (TlsPlan::Encrypted(_), Some(reason)) => Err(
            joined("server_addr 不能用作 TLS SNI: ", reason.as_str()),
        ),
        _ => Ok(()),
    }
}

/// Decides whether the handshake with the server at this address can begin.
pub fn tls_connect(plan: &TlsPlan, server_addr: &str) -> (r: Result<(), String>)
    ensures
        match r {
            Ok(_) => name_problem(plan@, server_name_error(server_addr@)) is None,
            Err(text) => name_problem(plan@, server_name_error(server_addr@)) == Some(text@),
        },
{
    judge_server_name(plan, recognise_server_name(server_addr))
}

// Certificate authorities.

/// What `rustls_pemfile` finds in a PEM text: each certificate, `None` for each
/// section that is damaged.
pub uninterp spec fn pem_sections(pem: Seq<u8>) -> Seq<Option<Seq<u8>>>;

/// The content of the sections of a PEM text.
pub open spec fn sections_view(list: Seq<Option<Vec<u8>>>) -> Seq<Option<Seq<u8>>> {
    list.map_values(
        |s: Option<Vec<u8>>|
            match s {
                Some(der) => Some(der@),
                None => None,
            },
    )
}

/// Reads the certificates of a PEM text with `rustls_pemfile::certs`.
///
/// Trusted: what comes out, in order, depends on the text alone.
#[verifier::external_body]
fn read_pem(pem: &[u8]) -> (list: Vec<Option<Vec<u8>>>)
    ensures
        sections_view(list@) == pem_sections(pem@),
{
    let mut reader = pem;
    rustls_pemfile::certs(&mut reader).map(|c| c.ok().map(|der| der.to_vec())).collect()
}

/// The certificates among the sections.
pub open spec fn undamaged(list: Seq<Option<Seq<u8>>>) -> Seq<Seq<u8>>
    decreases list.len(),
{
    if list.len() == 0 {
        Seq::empty()
    } else {
        match list.last() {
            Some(der) => undamaged(list.drop_last()).push(der),
            None => undamaged(list.drop_last()),
        }
    }
}

/// The content of a list of certificates.
pub open spec fn ders(list: Seq<Vec<u8>>) -> Seq<Seq<u8>> {
    list.map_values(|d: Vec<u8>| d@)
}

/// The certificates among the sections; damaged ones are passed over.
pub fn undamaged_certificates(list: &Vec<Option<Vec<u8>>>) -> (certs: Vec<Vec<u8>>)
    ensures
        ders(certs@) == undamaged(sections_view(list@)),
{
    let ghost all = sections_view(list@);
    let mut certs: Vec<Vec<u8>> = Vec::new();
    let mut i: usize = 0;
    assert(all.take(0) =~= Seq::empty());
    assert(ders(certs@) =~= Seq::empty());
    while i < list.len()
        invariant
            i <= list@.len(),
            all == sections_view(list@),
            ders(certs@) == undamaged(all.take(i as int)),
        decreases list@.len() - i,
    {
        assert(all.take(i + 1).drop_last() =~= all.take(i as int));
        assert(all.take(i + 1).last() == all[i as int]);
        match &list[i] {
            Some(der) => {
                let ghost before = certs@;
                let copy = vstd::slice::slice_to_vec(der.as_slice());
                certs.push(copy);
                assert(ders(certs@) =~= ders(before).push(der@));
            },
            None => {},
        }
        i = i + 1;
    }
    assert(all.take(all.len() as int) =~= all);
    certs
}

/// The certificate authorities in a PEM bundle.
pub fn root_store(pem: &[u8]) -> (certs: Vec<Vec<u8>>)
    ensures
        ders(certs@) == undamaged(pem_sections(pem@)),
{
    let list = read_pem(pem);
    undamaged_certificates(&list)
}

// Handshake signatures.

/// What an algorithm says about a signature.
#[derive(Debug, Clone, Copy, PartialEq, Eq, Structural)]
pub enum SignatureCheck {
    /// It is a signature of the message by the key of the certificate.
    Valid,
    /// The algorithm does not fit the key of the certificate.
    Unsupported,
    /// It is not.
    Invalid,
}

/// Why a handshake signature is refused.
#[derive(Debug, Clone, Copy, PartialEq, Eq, Structural)]
pub enum SignatureError {
    /// It was made with a scheme that was not offered.
    UnadvertisedScheme,
    /// The certificate cannot be read.
    BadEncoding,
    /// No algorithm of the scheme accepts it.
    BadSignature,
}

/// The schemes that are offered, in order of preference, each with the number of
/// its algorithms: ECDSA with SHA-384 and SHA-256, Ed25519, RSA-PSS and RSA
/// PKCS#1 with SHA-512, SHA-384 and SHA-256.
pub open spec fn offered() -> Seq<(u16, nat)> {
    seq![
        (0x0503u16, 2nat),
        (0x0403u16, 2nat),
        (0x0807u16, 1nat),
        (0x0806u16, 1nat),
        (0x0805u16, 1nat),
        (0x0804u16, 1nat),
        (0x0601u16, 1nat),
        (0x0501u16, 1nat),
        (0x0401u16, 1nat),
    ]
}

/// The content of a list of schemes.
pub open spec fn schemes_view(list: Seq<(u16, usize)>) -> Seq<(u16, nat)> {
    list.map_values(|e: (u16, usize)| (e.0, e.1 as nat))
}

/// Lists the signature schemes of `rustls::crypto::ring::default_provider` with
/// the number of algorithms of each.
///
/// Trusted: its `mapping` holds the nine schemes above, in that order.
#[verifier::external_body]
fn offered_schemes() -> (list: Vec<(u16, usize)>)
    ensures
        schemes_view(list@) == offered(),
{
    let algs = rustls::crypto::ring::default_provider().signature_verification_algorithms;
    algs.mapping.iter().map(|(scheme, list)| (u16::from(*scheme), list.len())).collect()
}

/// Whether `webpki` can read a certificate.
pub uninterp spec fn certificate_reads(cert: Seq<u8>) -> bool;

/// Reads a certificate with `webpki::EndEntityCert::try_from`.
///
/// Trusted: whether that succeeds depends on the certificate alone.
#[verifier::external_body]
fn reads_certificate(cert: &[u8]) -> (yes: bool)
    ensures
        yes == certificate_reads(cert@),
{
    webpki::EndEntityCert::try_from(&rustls_pki_types::CertificateDer::from(cert)).is_ok()
}

/// What an algorithm, given by the position of its scheme and its own position
/// among the algorithms of the scheme, says about a signature.
pub uninterp spec fn signature_check(
    scheme: nat,
    index: nat,
    cert: Seq<u8>,
    message: Seq<u8>,
    signature: Seq<u8>,
) -> SignatureCheck;

/// Checks a signature with `webpki::EndEntityCert::verify_signature` and one of
/// the algorithms of `rustls::crypto::ring::default_provider`.
///
/// Trusted: the outcome depends on the arguments alone.
#[verifier::external_body]
fn check_signature(
    scheme: usize,
    index: usize,
    cert: &[u8],
    message: &[u8],
    signature: &[u8],
) -> (check: SignatureCheck)
    requires
        scheme < offered().len(),
        index < offered()[scheme as int].1,
        certificate_reads(cert@),
    ensures
        check == signature_check(scheme as nat, index as nat, cert@, message@, signature@),
{
    let algs = rustls::crypto::ring::default_provider().signature_verification_algorithms;
    let der = rustls_pki_types::CertificateDer::from(cert);
    let ee = webpki::EndEntityCert::try_from(&der);
    match ee.and_then(|ee| ee.verify_signature(algs.mapping[scheme].1[index], message, signature)) {
        Ok(()) => SignatureCheck::Valid,
        Err(webpki::Error::UnsupportedSignatureAlgorithmForPublicKeyContext(_)) =>
            SignatureCheck::Unsupported,
        Err(_) => SignatureCheck::Invalid,
    }
}

/// The algorithms of a scheme in a list of schemes, each by the position of the
/// scheme and its own.
pub open spec fn candidates(list: Seq<(u16, nat)>, scheme: u16) -> Seq<(nat, nat)>
    decreases list.len(),
{
    if list.len() == 0 {
        Seq::empty()
    } else {
        let before = candidates(list.drop_last(), scheme);
        if list.last().0 == scheme {
            before + Seq::new(list.last().1, |i: int| ((list.len() - 1) as nat, i as nat))
        } else {
            before
        }
    }
}

/// The content of a list of positions.
pub open spec fn positions_view(list: Seq<(usize, usize)>) -> Seq<(nat, nat)> {
    list.map_values(|p: (usize, usize)| (p.0 as nat, p.1 as nat))
}

/// Lists the algorithms of a scheme.
pub fn scheme_algorithms(list: &Vec<(u16, usize)>, scheme: u16) -> (found: Vec<(usize, usize)>)
    ensures
        positions_view(found@) == candidates(schemes_view(list@), scheme),
{
    let ghost all = schemes_view(list@);
    let mut found: Vec<(usize, usize)> = Vec::new();
    let mut i: usize = 0;
    assert(all.take(0) =~= Seq::empty());
    assert(positions_view(found@) =~= Seq::empty());
    while i < list.len()
        invariant
            i <= list@.len(),
            all == schemes_view(list@),
            positions_view(found@) == candidates(all.take(i as int), scheme),
        decreases list@.len() - i,
    {
        assert(all.take(i + 1).drop_last() =~= all.take(i as int));
        let (offered, count): (u16, usize) = list[i];
        assert(all.take(i + 1).last() == (offered, count as nat));
        if offered == scheme {
            let ghost before = positions_view(found@);
            let mut j: usize = 0;
            assert(positions_view(found@) =~= before + Seq::new(0, |k: int| (i as nat, k as nat)));
            while j < count
                invariant
                    j <= count,
                    positions_view(found@) == before + Seq::new(
                        j as nat,
                        |k: int| (i as nat, k as nat),
                    ),
                decreases count - j,
            {
                let ghost held = found@;
                found.push((i, j));
                assert(positions_view(found@) =~= positions_view(held).push((i as nat, j as nat)));
                assert(Seq::new((j + 1) as nat, |k: int| (i as nat, k as nat)) =~= Seq::new(
                    j as nat,
                    |k: int| (i as nat, k as nat),
                ).push((i as nat, j as nat)));
                j = j + 1;
                assert(positions_view(found@) =~= before + Seq::new(
                    j as nat,
                    |k: int| (i as nat, k as nat),
                ));
            }
        }
        i = i + 1;
    }
    assert(all.take(all.len() as int) =~= all);
    found
}

/// Whether the first algorithm that fits the key of the certificate accepts the
/// signature.
pub open spec fn accepted(checks: Seq<SignatureCheck>) -> bool {
    exists|i: int|
        0 <= i < checks.len() && #[trigger] checks[i] == SignatureCheck::Valid && (forall|j: int|
            0 <= j < i ==> #[trigger] checks[j] == SignatureCheck::Unsupported)
}

/// Judges a signature by what the algorithms of its scheme say, in order;
/// `readable` tells whether the certificate could be read.
pub open spec fn signature_verdict(readable: bool, checks: Seq<SignatureCheck>) -> Result<
    (),
    SignatureError,
> {
    if checks.len() == 0 {
        Err(SignatureError::UnadvertisedScheme)
    } else if !readable {
        Err(SignatureError::BadEncoding)
    } else if accepted(checks) {
        Ok(())
    } else {
        Err(SignatureError::BadSignature)
    }
}

/// Judges a signature by what the algorithms of its scheme say.
pub fn judge_signature(readable: bool, checks: &Vec<SignatureCheck>) -> (r: Result<
    (),
    SignatureError,
>)
    ensures
        r == signature_verdict(readable, checks@),
{
    if checks.len() == 0 {
        return Err(SignatureError::UnadvertisedScheme);
    }
    if !readable {
        return Err(SignatureError::BadEncoding);
    }
    let mut i: usize = 0;
    while i < checks.len()
        invariant
            i <= checks@.len(),
            checks@.len() > 0,
            readable,
            forall|j: int| 0 <= j < i ==> #[trigger] checks@[j] == SignatureCheck::Unsupported,
        decreases checks@.len() - i,
    {
        match checks[i] {
            SignatureCheck::Valid => {
                assert(checks@[i as int] == SignatureCheck::Valid);
                assert(accepted(checks@));
                return Ok(());
            },
            SignatureCheck::Invalid => {
                assert(checks@[i as int] == SignatureCheck::Invalid);
                assert(!accepted(checks@));
                return Err(SignatureError::BadSignature);
            },
            SignatureCheck::Unsupported => {},
        }
        i = i + 1;
    }
    Err(SignatureError::BadSignature)
}

/// What the algorithms of a scheme say about a signature, in order.
pub open spec fn scheme_checks(
    scheme: u16,
    cert: Seq<u8>,
    message: Seq<u8>,
    signature: Seq<u8>,
) -> Seq<SignatureCheck> {
    candidates(offered(), scheme).map_values(
        |p: (nat, nat)| signature_check(p.0, p.1, cert, message, signature),
    )
}

/// Algorithms of a scheme have positions in the list of schemes, and stand there
/// with that scheme.
proof fn lemma_candidates(list: Seq<(u16, nat)>, scheme: u16)
    ensures
        forall|i: int|
            #![trigger candidates(list, scheme)[i]]
            0 <= i < candidates(list, scheme).len() ==> {
                let p = candidates(list, scheme)[i];
                p.0 < list.len() && p.1 < list[p.0 as int].1 && list[p.0 as int].0 == scheme
            },
    decreases list.len(),
{
    if list.len() > 0 {
        let before = candidates(list.drop_last(), scheme);
        lemma_candidates(list.drop_last(), scheme);
        assert forall|i: int|
            #![trigger candidates(list, scheme)[i]]
            0 <= i < candidates(list, scheme).len() implies {
            let p = candidates(list, scheme)[i];
            p.0 < list.len() && p.1 < list[p.0 as int].1 && list[p.0 as int].0 == scheme
        } by {
            if i < before.len() {
                assert(candidates(list, scheme)[i] == before[i]);
            }
        }
    }
}

/// The first algorithm for ECDSA with SHA-256 is the first of the second scheme.
pub(crate) proof fn lemma_p256_first()
    ensures
        candidates(offered(), 0x0403).len() > 0,
        candidates(offered(), 0x0403)[0] == (1nat, 0nat),
{
    let all = offered();
    assert forall|n: int| 1 <= n <= all.len() implies #[trigger] all.take(n).drop_last()
        == all.take(n - 1) by {
        assert(all.take(n).drop_last() =~= all.take(n - 1));
    }
    assert(candidates(all.take(0), 0x0403) =~= Seq::empty());
    assert(candidates(all.take(1), 0x0403) =~= Seq::empty());
    assert(candidates(all.take(2), 0x0403) =~= seq![(1nat, 0nat), (1nat, 1nat)]);
    assert(candidates(all.take(3), 0x0403) == candidates(all.take(2), 0x0403));
    assert(candidates(all.take(4), 0x0403) == candidates(all.take(3), 0x0403));
    assert(candidates(all.take(5), 0x0403) == candidates(all.take(4), 0x0403));
    assert(candidates(all.take(6), 0x0403) == candidates(all.take(5), 0x0403));
    assert(candidates(all.take(7), 0x0403) == candidates(all.take(6), 0x0403));
    assert(candidates(all.take(8), 0x0403) == candidates(all.take(7), 0x0403));
    assert(all.take(9) =~= all);
}

/// Verifies a handshake signature: the first algorithm of its scheme that fits
/// the key of the certificate decides.
pub fn verify_handshake_signature(
    message: &[u8],
    cert: &[u8],
    scheme: u16,
    signature: &[u8],
) -> (r: Result<(), SignatureError>)
    ensures
        r == signature_verdict(
            certificate_reads(cert@),
            scheme_checks(scheme, cert@, message@, signature@),
        ),
{
    let list = offered_schemes();
    let possible = scheme_algorithms(&list, scheme);
    let ghost all = scheme_checks(scheme, cert@, message@, signature@);
    assert(all.len() == possible@.len());
    if possible.len() == 0 {
        return Err(SignatureError::UnadvertisedScheme);
    }
    if !reads_certificate(cert) {
        return Err(SignatureError::BadEncoding);
    }
    proof {
        lemma_candidates(offered(), scheme);
    }
    let mut checks: Vec<SignatureCheck> = Vec::new();
    let mut decided: bool = false;
    let mut i: usize = 0;
    while i < possible.len() && !decided
        invariant
            i == checks@.len(),
            i <= possible@.len(),
            decided ==> i > 0 && checks@[i - 1] != SignatureCheck::Unsupported,
            forall|j: int|
                0 <= j < i && !(decided && j == i - 1) ==> #[trigger] checks@[j]
                    == SignatureCheck::Unsupported,
            possible@.len() == all.len(),
            certificate_reads(cert@),
            positions_view(possible@) == candidates(offered(), scheme),
            all == scheme_checks(scheme, cert@, message@, signature@),
            checks@ == all.take(i as int),
            forall|j: int|
                #![trigger candidates(offered(), scheme)[j]]
                0 <= j < candidates(offered(), scheme).len() ==> {
                    let p = candidates(offered(), scheme)[j];
                    p.0 < offered().len() && p.1 < offered()[p.0 as int].1
                },
        decreases possible@.len() - i,
    {
        let (at, index): (usize, usize) = possible[i];
        assert(positions_view(possible@)[i as int] == (at as nat, index as nat));
        assert(candidates(offered(), scheme)[i as int] == (at as nat, index as nat));
        let check = check_signature(at, index, cert, message, signature);
        checks.push(check);
        assert(checks@ =~= all.take(i + 1));
        decided = check != SignatureCheck::Unsupported;
        i = i + 1;
    }
    proof {
        assert forall|j: int| 0 <= j < i implies #[trigger] all[j] == checks@[j] by {}
        if decided {
            assert(checks@[i - 1] == all[i - 1]);
            assert(accepted(all) <==> accepted(checks@));
        } else {
            assert(checks@ =~= all);
        }
    }
    judge_signature(true, &checks)
}

/// A signature is accepted only if an algorithm of its scheme finds that the key
/// of the certificate made it.
pub proof fn law_accepted_signature_is_valid(
    message: Seq<u8>,
    cert: Seq<u8>,
    scheme: u16,
    signature: Seq<u8>,
)
    requires
        signature_verdict(
            certificate_reads(cert),
            scheme_checks(scheme, cert, message, signature),
        ) is Ok,
    ensures
        certificate_reads(cert),
        exists|at: nat, index: nat|
            #![trigger signature_check(at, index, cert, message, signature)]
            at < offered().len() && offered()[at as int].0 == scheme && signature_check(
                at,
                index,
                cert,
                message,
                signature,
            ) == SignatureCheck::Valid,
{
    let checks = scheme_checks(scheme, cert, message, signature);
    let i = choose|i: int|
        0 <= i < checks.len() && #[trigger] checks[i] == SignatureCheck::Valid && (forall|j: int|
            0 <= j < i ==> #[trigger] checks[j] == SignatureCheck::Unsupported);
    lemma_candidates(offered(), scheme);
    let p = candidates(offered(), scheme)[i];
    assert(signature_check(p.0, p.1, cert, message, signature) == SignatureCheck::Valid);
}

} // verus!
