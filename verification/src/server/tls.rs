//! The server's certificate: where it is kept, when it is made and how it is
//! made.
use crate::client::tls::{
    accepted, certificate_reads, lemma_p256_first, scheme_checks, server_name_error,
    signature_check, signature_verdict, SignatureCheck,
};
use crate::fingerprint::{hex, sha256, sha256_hex};
use crate::msg::opt_text;
use crate::server::auth::texts;
use crate::server::state::opt_str;
use crate::text::joined;
use vstd::prelude::*;

verus! {

/// File of the certificate that the server made for itself.
pub const AUTO_CERT: &'static str = "rfps-auto-cert.der";

/// File of the private key that goes with it.
pub const AUTO_KEY: &'static str = "rfps-auto-key.der";

/// The subject of a certificate that the server made for itself.
pub const COMMON_NAME: &'static str = "rust-frp";

/// Errors of `rcgen`.
#[verifier::external_type_specification]
#[verifier::external_body]
pub struct ExRcgenError(rcgen::Error);

/// Why the server has no certificate.
#[derive(Debug)]
pub enum CertError {
    /// Only one of certificate and key is configured.
    Unpaired,
    /// A configured file does not exist.
    Missing { cert: String, key: String },
    /// The private key cannot be read.
    BadKey(String),
    /// The certificate cannot be used with the private key.
    Config(String),
    /// No certificate could be made.
    Generation(rcgen::Error),
}

/// The mathematical content of a [`CertError`].
pub enum CertErrorView {
    Unpaired,
    Missing { cert: Seq<char>, key: Seq<char> },
    BadKey(Seq<char>),
    Config(Seq<char>),
    Generation(rcgen::Error),
}

impl View for CertError {
    type V = CertErrorView;

    open spec fn view(&self) -> CertErrorView {
        match self {
            CertError::Unpaired => CertErrorView::Unpaired,
            CertError::Missing { cert, key } => CertErrorView::Missing { cert: cert@, key: key@ },
            CertError::BadKey(reason) => CertErrorView::BadKey(reason@),
            CertError::Config(reason) => CertErrorView::Config(reason@),
            CertError::Generation(e) => CertErrorView::Generation(*e),
        }
    }
}

/// How an error is shown to the user.
pub open spec fn cert_error_text(e: CertErrorView) -> Seq<char> {
    match e {
        CertErrorView::Unpaired => "tls.cert 与 tls.key 必须同时配置或同时省略"@,
        CertErrorView::Missing { cert, key } => "指定了证书路径但文件不存在: "@ + cert + " / "@ + key,
        CertErrorView::BadKey(reason) => "解析私钥失败: "@ + reason,
        CertErrorView::Config(reason) => "TLS 配置失败: "@ + reason,
        CertErrorView::Generation(_) => "生成自签证书失败"@,
    }
}

impl CertError {
    /// How the error is shown to the user.
    pub fn text(&self) -> (text: String)
        ensures
            text@ == cert_error_text(self@),
    {
        match self {
            CertError::Unpaired => "tls.cert 与 tls.key 必须同时配置或同时省略".to_owned(),
            CertError::Missing { cert, key } => {
                let text = joined("指定了证书路径但文件不存在: ", cert.as_str());
                let text = joined(text.as_str(), " / ");
                joined(text.as_str(), key.as_str())
            },
            CertError::BadKey(reason) => joined("解析私钥失败: ", reason.as_str()),
            CertError::Config(reason) => joined("TLS 配置失败: ", reason.as_str()),
            CertError::Generation(_) => "生成自签证书失败".to_owned(),
        }
    }
}

// Where the certificate is kept.

/// The files of a certificate and its key.
#[derive(Debug, Clone)]
pub struct CertPaths {
    pub cert: String,
    pub key: String,
    /// Whether the configuration names them.
    pub configured: bool,
}

/// The mathematical content of [`CertPaths`].
pub struct CertPathsView {
    pub cert: Seq<char>,
    pub key: Seq<char>,
    pub configured: bool,
}

impl View for CertPaths {
    type V = CertPathsView;

    open spec fn view(&self) -> CertPathsView {
        CertPathsView { cert: self.cert@, key: self.key@, configured: self.configured }
    }
}

/// The files that a configuration stands for; `None` if it names only one.
pub open spec fn cert_paths_of(cert: Option<Seq<char>>, key: Option<Seq<char>>) -> Option<
    CertPathsView,
> {
    match (cert, key) {
        (Some(cert), Some(key)) => Some(CertPathsView { cert, key, configured: true }),
        (None, None) => Some(
            CertPathsView { cert: AUTO_CERT@, key: AUTO_KEY@, configured: false },
        ),
        _ => None,
    }
}

/// The files that a configuration stands for.
pub fn cert_paths(cert: Option<&str>, key: Option<&str>) -> (r: Result<CertPaths, CertError>)
    ensures
        match r {
            Ok(paths) => cert_paths_of(opt_str(cert), opt_str(key)) == Some(paths@),
            Err(e) => e is Unpaired && cert_paths_of(opt_str(cert), opt_str(key)) is None,
        },
{
    match (cert, key) {
        (Some(cert), Some(key)) => Ok(
            CertPaths { cert: cert.to_owned(), key: key.to_owned(), configured: true },
        ),
        (None, None) => Ok(
            CertPaths { cert: AUTO_CERT.to_owned(), key: AUTO_KEY.to_owned(), configured: false },
        ),
        _ => Err(CertError::Unpaired),
    }
}

/// Where the certificate comes from.
#[derive(Debug, Clone, Copy, PartialEq, Eq, Structural)]
pub enum CertSource {
    /// From its files.
    Load,
    /// It is made and written to its files, so that the next start finds it there.
    Generate,
}

/// Where the certificate comes from, given which files exist; `None` if a
/// configured file does not. A configured certificate is never made up.
pub open spec fn cert_source_of(configured: bool, cert_exists: bool, key_exists: bool) -> Option<
    CertSource,
> {
    if cert_exists && key_exists {
        Some(CertSource::Load)
    } else if configured {
        None
    } else {
        Some(CertSource::Generate)
    }
}

/// Decides where the certificate comes from, given which of its files exist.
pub fn cert_source(paths: &CertPaths, cert_exists: bool, key_exists: bool) -> (r: Result<
    CertSource,
    CertError,
>)
    ensures
        match r {
            Ok(source) => cert_source_of(paths.configured, cert_exists, key_exists) == Some(source),
            Err(e) => cert_source_of(paths.configured, cert_exists, key_exists) is None && e@ == (
            CertErrorView::Missing { cert: paths.cert@, key: paths.key@ }),
        },
{
    if cert_exists && key_exists {
        return Ok(CertSource::Load);
    }
    if paths.configured {
        return Err(CertError::Missing { cert: paths.cert.clone(), key: paths.key.clone() });
    }
    Ok(CertSource::Generate)
}

/// A certificate that was made once is found again: with both of its files in
/// place the server loads it, whether or not the configuration names them.
pub proof fn law_existing_certificate_is_kept(configured: bool)
    ensures
        cert_source_of(configured, true, true) == Some(CertSource::Load),
{
}

/// A configured certificate is never replaced by one that the server makes.
pub proof fn law_configured_certificate_is_not_made(cert_exists: bool, key_exists: bool)
    ensures
        cert_source_of(true, cert_exists, key_exists) != Some(CertSource::Generate),
{
}

// Certificates and keys.

/// A certificate and its private key, both in DER.
#[derive(Debug, Clone)]
pub struct CertPair {
    pub cert: Vec<u8>,
    pub key: Vec<u8>,
}

/// Why `rustls_pki_types` does not take these bytes for a private key; `None` if
/// it does.
pub uninterp spec fn private_key_error(key: Seq<u8>) -> Option<Seq<char>>;

/// Recognises a private key with `rustls_pki_types::PrivateKeyDer::try_from`.
///
/// Trusted: the outcome depends on the bytes alone.
#[verifier::external_body]
fn recognise_key(key: &[u8]) -> (error: Option<String>)
    ensures
        private_key_error(key@) == opt_text(error),
{
    rustls_pki_types::PrivateKeyDer::try_from(key).err().map(|e| e.to_string())
}

/// Takes the content of the two files of a certificate, given why the key is
/// none if it is not.
pub fn judge_pair(cert: Vec<u8>, key: Vec<u8>, key_error: Option<String>) -> (r: Result<
    CertPair,
    CertError,
>)
    ensures
        match key_error {
            None => r matches Ok(pair) && pair.cert@ == cert@ && pair.key@ == key@,
            Some(reason) => r matches Err(e) && e@ == CertErrorView::BadKey(reason@),
        },
{
    match key_error {
        None => Ok(CertPair { cert, key }),
        Some(reason) => Err(CertError::BadKey(reason)),
    }
}

/// Takes the content of the two files of a certificate.
pub fn loaded_pair(cert: Vec<u8>, key: Vec<u8>) -> (r: Result<CertPair, CertError>)
    ensures
        match private_key_error(key@) {
            None => r matches Ok(pair) && pair.cert@ == cert@ && pair.key@ == key@,
            Some(reason) => r matches Err(e) && e@ == CertErrorView::BadKey(reason),
        },
{
    let error = recognise_key(key.as_slice());
    judge_pair(cert, key, error)
}

/// Why `rustls` cannot use a certificate with a private key; `None` if it can.
pub uninterp spec fn pair_error(cert: Seq<u8>, key: Seq<u8>) -> Option<Seq<char>>;

/// Whether a private key belongs to a certificate: the public key that goes with
/// it is the one in the certificate.
pub open spec fn key_fits(cert: Seq<u8>, key: Seq<u8>) -> bool {
    pair_error(cert, key) is None
}

/// Puts a certificate and a private key together with
/// `rustls::sign::CertifiedKey::from_der` and the `ring` provider, and compares
/// their public keys with `CertifiedKey::keys_match`.
///
/// Trusted: the outcome depends on the bytes alone.
#[verifier::external_body]
fn match_pair(cert: &[u8], key: &[u8]) -> (error: Option<String>)
    requires
        private_key_error(key@) is None,
    ensures
        pair_error(cert@, key@) == opt_text(error),
{
    let chain = vec![rustls_pki_types::CertificateDer::from(cert.to_vec())];
    let key = rustls_pki_types::PrivateKeyDer::try_from(key.to_vec()).expect("a private key");
    let provider = rustls::crypto::ring::default_provider();
    let certified = rustls::sign::CertifiedKey::from_der(chain, key, &provider);
    certified.and_then(|c| c.keys_match()).err().map(|e| e.to_string())
}

// The names in a certificate.

/// The subject of a certificate in DER, without the outer tag and length, as
/// `webpki` reads it; `None` if `webpki` cannot read the certificate.
pub uninterp spec fn certificate_subject(cert: Seq<u8>) -> Option<Seq<u8>>;

/// The issuer of a certificate, in the same form.
pub uninterp spec fn certificate_issuer(cert: Seq<u8>) -> Option<Seq<u8>>;

/// The alternative names of a certificate, of every kind, as `webpki` lists them
/// where the certificate is not valid for a host; `None` if it is valid for the
/// host, or where `webpki` cannot read the certificate or the name of the host.
pub uninterp spec fn presented_names(cert: Seq<u8>, host: Seq<char>) -> Option<Seq<Seq<char>>>;

/// The content of optional bytes.
pub open spec fn opt_bytes(b: Option<Vec<u8>>) -> Option<Seq<u8>> {
    match b {
        Some(v) => Some(v@),
        None => None,
    }
}

/// The content of an optional list of texts.
pub open spec fn opt_texts(list: Option<Vec<String>>) -> Option<Seq<Seq<char>>> {
    match list {
        Some(v) => Some(texts(v@)),
        None => None,
    }
}

/// Reads the subject of a certificate with `webpki::EndEntityCert::try_from` and
/// `Cert::subject`.
///
/// Trusted: the outcome depends on the certificate alone.
#[verifier::external_body]
fn read_subject(cert: &[u8]) -> (subject: Option<Vec<u8>>)
    ensures
        certificate_subject(cert@) == opt_bytes(subject),
{
    let der = rustls_pki_types::CertificateDer::from(cert);
    webpki::EndEntityCert::try_from(&der).ok().map(|c| c.subject().to_vec())
}

/// Reads the issuer of a certificate with `webpki::EndEntityCert::try_from` and
/// `Cert::issuer`.
///
/// Trusted: the outcome depends on the certificate alone.
#[verifier::external_body]
fn read_issuer(cert: &[u8]) -> (issuer: Option<Vec<u8>>)
    ensures
        certificate_issuer(cert@) == opt_bytes(issuer),
{
    let der = rustls_pki_types::CertificateDer::from(cert);
    webpki::EndEntityCert::try_from(&der).ok().map(|c| c.issuer().to_vec())
}

/// Holds a certificate against the name of a host, with
/// `rustls_pki_types::ServerName::try_from`, `webpki::EndEntityCert::try_from` and
/// `EndEntityCert::verify_is_valid_for_subject_name`, and takes the names that the
/// certificate presents from the error `CertNotValidForName`.
///
/// Trusted: the outcome depends on the certificate and the name alone.
#[verifier::external_body]
fn read_presented(cert: &[u8], host: &str) -> (names: Option<Vec<String>>)
    ensures
        presented_names(cert@, host@) == opt_texts(names),
{
    let host = rustls_pki_types::ServerName::try_from(host).ok()?;
    let der = rustls_pki_types::CertificateDer::from(cert);
    let ee = webpki::EndEntityCert::try_from(&der).ok()?;
    match ee.verify_is_valid_for_subject_name(&host) {
        Err(webpki::Error::CertNotValidForName(context)) => Some(context.presented),
        _ => None,
    }
}

/// Whom a certificate is for and whom it is from.
#[derive(Debug, Clone, PartialEq)]
pub struct CertNames {
    pub subject: Vec<u8>,
    pub issuer: Vec<u8>,
    /// The alternative names, if the certificate is not valid for the host.
    pub presented: Option<Vec<String>>,
}

/// Reads the names in a certificate and holds them against the name of a host;
/// there are none if the certificate cannot be read.
pub fn certificate_names(cert: &[u8], host: &str) -> (names: Option<CertNames>)
    ensures
        match names {
            Some(n) => certificate_subject(cert@) == Some(n.subject@) && certificate_issuer(cert@)
                == Some(n.issuer@) && presented_names(cert@, host@) == opt_texts(n.presented),
            None => certificate_subject(cert@) is None || certificate_issuer(cert@) is None,
        },
{
    match (read_subject(cert), read_issuer(cert)) {
        (Some(subject), Some(issuer)) => {
            let presented = read_presented(cert, host);
            Some(CertNames { subject, issuer, presented })
        },
        _ => None,
    }
}

/// A name that consists of a common name of at most 100 bytes alone, in DER: a
/// set of one pair, of the object identifier 2.5.4.3 and the UTF-8 text.
pub open spec fn common_name_der(name: Seq<char>) -> Seq<u8> {
    let text = vstd::utf8::encode_utf8(name);
    seq![
        0x31,
        (text.len() + 9) as u8,
        0x30,
        (text.len() + 7) as u8,
        0x06,
        0x03,
        0x55,
        0x04,
        0x03,
        0x0c,
        text.len() as u8,
    ] + text
}

// Certificates that the server makes.

/// A length in DER, of less than 65536.
pub open spec fn der_length(n: nat) -> Seq<u8> {
    if n < 128 {
        seq![n as u8]
    } else if n < 256 {
        seq![0x81, n as u8]
    } else {
        seq![0x82, (n / 256) as u8, (n % 256) as u8]
    }
}

/// What stands between the content of a certificate and its signature with ECDSA
/// and SHA-256: the object identifier 1.2.840.10045.4.3.2, and the head of the bit
/// string that the signature is in.
pub open spec fn signature_head(signature: Seq<u8>) -> Seq<u8> {
    seq![0x30, 0x0a, 0x06, 0x08, 0x2a, 0x86, 0x48, 0xce, 0x3d, 0x04, 0x03, 0x02, 0x03]
        + der_length(signature.len() + 1) + seq![0x00]
}

/// A certificate in DER: a content, and a signature with ECDSA and SHA-256.
pub open spec fn signed_der(content: Seq<u8>, signature: Seq<u8>) -> Seq<u8> {
    let body = content + signature_head(signature) + signature;
    seq![0x30] + der_length(body.len()) + body
}

/// Whether a certificate consists of a content and a signature, and the signature
/// is one of the content by the key of the certificate itself.
pub open spec fn signs_itself(cert: Seq<u8>, content: Seq<u8>, signature: Seq<u8>) -> bool {
    cert == signed_der(content, signature) && signature_check(1, 0, cert, content, signature)
        == SignatureCheck::Valid
}

/// Whether a certificate names no host: whatever host it is held against, it is
/// not valid for it and has no alternative names to present.
pub open spec fn names_no_host(cert: Seq<u8>) -> bool {
    forall|host: Seq<char>|
        server_name_error(host) is None ==> #[trigger] presented_names(cert, host) == Some(
            Seq::<Seq<char>>::empty(),
        )
}

/// Whether a certificate and a key are a pair that the server can make for a
/// common name: the key is a private key and belongs to the certificate; subject
/// and issuer are both the common name; there are no alternative names of any
/// kind; and the certificate is signed with its own key.
pub open spec fn self_signed_for(name: Seq<char>, cert: Seq<u8>, key: Seq<u8>) -> bool {
    &&& private_key_error(key) is None
    &&& key_fits(cert, key)
    &&& certificate_subject(cert) == Some(common_name_der(name))
    &&& certificate_issuer(cert) == Some(common_name_der(name))
    &&& names_no_host(cert)
    &&& certificate_reads(cert)
    &&& exists|content: Seq<u8>, signature: Seq<u8>| #[trigger]
        signs_itself(cert, content, signature)
}

/// Makes a self-signed certificate with `rcgen`: `KeyPair::generate`, then
/// `CertificateParams::self_signed` with this common name and no alternative
/// names. Returns the certificate and the private key.
///
/// Trusted: the key is an ECDSA key in PKCS#8 form, the certificate holds its
/// public key, and the common name, of at most 100 bytes, stands in the
/// certificate as subject and issuer. No extension is written, and so no
/// alternative name. The signature, with the same key, is ECDSA on P-256 with
/// SHA-256; that is the first algorithm of the second scheme that is
/// [offered](crate::client::tls::offered). The key is random and the signature with
/// it, so nothing else is claimed of the bytes; nor is it claimed that the system has
/// random bytes to give.
#[verifier::external_body]
fn issue_self_signed(common_name: &str) -> (r: Result<(Vec<u8>, Vec<u8>), rcgen::Error>)
    requires
        common_name@.len() <= 25,
    ensures
        r matches Ok(pair) ==> self_signed_for(common_name@, pair.0@, pair.1@),
{
    let key = rcgen::KeyPair::generate()?;
    let mut params = rcgen::CertificateParams::default();
    params.distinguished_name = rcgen::DistinguishedName::new();
    params.distinguished_name.push(rcgen::DnType::CommonName, common_name);
    let cert = params.self_signed(&key)?;
    Ok((cert.der().to_vec(), key.serialize_der()))
}

/// Makes a self-signed certificate for [`COMMON_NAME`] and the private key that
/// belongs to it. It names no host: clients know it by its fingerprint.
pub fn generate_self_signed() -> (r: Result<CertPair, CertError>)
    ensures
        match r {
            Ok(pair) => self_signed_for(COMMON_NAME@, pair.cert@, pair.key@),
            Err(e) => e is Generation,
        },
{
    proof {
        reveal_strlit("rust-frp");
    }
    match issue_self_signed(COMMON_NAME) {
        Ok((cert, key)) => Ok(CertPair { cert, key }),
        Err(e) => Err(CertError::Generation(e)),
    }
}

// Starting with a certificate.

/// A certificate in use.
#[derive(Debug, Clone)]
pub struct TlsSetup {
    pub pair: CertPair,
    /// Fingerprint of the certificate, for clients to pin.
    pub fingerprint: String,
    /// Whether the pair was made just now and is still to be written to its files.
    pub fresh: bool,
}

/// The fingerprint that the server announces with a certificate, or why it cannot
/// use it, given why the key is none and why the two do not belong together.
pub open spec fn setup_of(
    cert: Seq<u8>,
    key_error: Option<Seq<char>>,
    pair_error: Option<Seq<char>>,
) -> Result<Seq<char>, CertErrorView> {
    match (key_error, pair_error) {
        (Some(reason), _) => Err(CertErrorView::BadKey(reason)),
        (None, Some(reason)) => Err(CertErrorView::Config(reason)),
        (None, None) => Ok(hex(sha256(cert))),
    }
}

/// What comes of starting with a certificate and a key.
pub open spec fn use_of(cert: Seq<u8>, key: Seq<u8>) -> Result<Seq<char>, CertErrorView> {
    setup_of(cert, private_key_error(key), pair_error(cert, key))
}

/// Decides what comes of starting with a certificate, given why its key cannot be
/// used with it if it cannot.
pub fn judge_setup(pair: CertPair, fresh: bool, config_error: Option<String>) -> (r: Result<
    TlsSetup,
    CertError,
>)
    ensures
        match r {
            Ok(s) => setup_of(pair.cert@, None, opt_text(config_error)) == Ok::<
                Seq<char>,
                CertErrorView,
            >(s.fingerprint@) && s.pair == pair && s.fresh == fresh,
            Err(e) => setup_of(pair.cert@, None, opt_text(config_error)) == Err::<
                Seq<char>,
                CertErrorView,
            >(e@),
        },
{
    match config_error {
        Some(reason) => Err(CertError::Config(reason)),
        None => {
            let fingerprint = sha256_hex(pair.cert.as_slice());
            Ok(TlsSetup { pair, fingerprint, fresh })
        },
    }
}

/// Takes the certificate from its files, or makes one. `files` is the content of
/// certificate file and key file if both exist. The flag tells whether the pair
/// was made, and is to be written to its files.
pub fn load_or_generate(paths: &CertPaths, files: Option<(Vec<u8>, Vec<u8>)>) -> (r: Result<
    (CertPair, bool),
    CertError,
>)
    ensures
        match files {
            Some((cert, key)) => match private_key_error(key@) {
                None => r matches Ok((pair, fresh)) && pair.cert@ == cert@ && pair.key@ == key@
                    && !fresh,
                Some(reason) => r matches Err(e) && e@ == CertErrorView::BadKey(reason),
            },
            None => if paths.configured {
                r matches Err(e) && e@ == (CertErrorView::Missing {
                    cert: paths.cert@,
                    key: paths.key@,
                })
            } else {
                match r {
                    Ok((pair, fresh)) => fresh && self_signed_for(
                        COMMON_NAME@,
                        pair.cert@,
                        pair.key@,
                    ),
                    Err(e) => e is Generation,
                }
            },
        },
{
    match cert_source(paths, files.is_some(), files.is_some()) {
        Err(e) => Err(e),
        Ok(_) => match files {
            Some((cert, key)) => match loaded_pair(cert, key) {
                Ok(pair) => Ok((pair, false)),
                Err(e) => Err(e),
            },
            None => match generate_self_signed() {
                Ok(pair) => Ok((pair, true)),
                Err(e) => Err(e),
            },
        },
    }
}

/// The content of the two files of a certificate.
pub open spec fn files_view(files: Option<(Vec<u8>, Vec<u8>)>) -> Option<(Seq<u8>, Seq<u8>)> {
    match files {
        Some((cert, key)) => Some((cert@, key@)),
        None => None,
    }
}

/// Whether a start with the files of a certificate may have this outcome. With
/// both files there it is determined by their content. Without them, a configured
/// certificate is missing, and otherwise a new one is made if that can be done.
pub open spec fn setup_outcome(
    paths: CertPathsView,
    files: Option<(Seq<u8>, Seq<u8>)>,
    r: Result<TlsSetup, CertError>,
) -> bool {
    match files {
        Some((cert, key)) => match r {
            Ok(s) => use_of(cert, key) == Ok::<Seq<char>, CertErrorView>(s.fingerprint@)
                && s.pair.cert@ == cert && s.pair.key@ == key && !s.fresh,
            Err(e) => use_of(cert, key) == Err::<Seq<char>, CertErrorView>(e@),
        },
        None => if paths.configured {
            r matches Err(e) && e@ == (CertErrorView::Missing { cert: paths.cert, key: paths.key })
        } else {
            match r {
                Ok(s) => s.fresh && self_signed_for(COMMON_NAME@, s.pair.cert@, s.pair.key@)
                    && s.fingerprint@ == hex(sha256(s.pair.cert@)),
                Err(e) => e is Generation,
            }
        },
    }
}

/// Starts with the certificate from its files, or with a new one. `files` is the
/// content of certificate file and key file if both exist.
pub fn setup(paths: &CertPaths, files: Option<(Vec<u8>, Vec<u8>)>) -> (r: Result<
    TlsSetup,
    CertError,
>)
    ensures
        setup_outcome(paths@, files_view(files), r),
{
    match load_or_generate(paths, files) {
        Err(e) => Err(e),
        Ok((pair, fresh)) => {
            let error = match_pair(pair.cert.as_slice(), pair.key.as_slice());
            judge_setup(pair, fresh, error)
        },
    }
}

/// A pair that the server made can be used again, under the fingerprint of its
/// certificate.
pub proof fn law_made_certificate_is_usable(name: Seq<char>, cert: Seq<u8>, key: Seq<u8>)
    requires
        self_signed_for(name, cert, key),
    ensures
        use_of(cert, key) == Ok::<Seq<char>, CertErrorView>(hex(sha256(cert))),
{
}

/// A certificate that the server made is valid for no host, and presents no names
/// in its place.
pub proof fn law_made_certificate_names_no_host(
    name: Seq<char>,
    cert: Seq<u8>,
    key: Seq<u8>,
    host: Seq<char>,
)
    requires
        self_signed_for(name, cert, key),
        server_name_error(host) is None,
    ensures
        presented_names(cert, host) == Some(Seq::<Seq<char>>::empty()),
{
}

/// A certificate that the server made is signed with its own key: it consists of a
/// content and a signature, and whoever verifies the signature of the content
/// against the certificate, as ECDSA on P-256 with SHA-256, accepts it.
pub proof fn law_made_certificate_signs_itself(name: Seq<char>, cert: Seq<u8>, key: Seq<u8>)
    requires
        self_signed_for(name, cert, key),
    ensures
        exists|content: Seq<u8>, signature: Seq<u8>|
            cert == #[trigger] signed_der(content, signature) && signature_verdict(
                certificate_reads(cert),
                scheme_checks(0x0403, cert, content, signature),
            ) is Ok,
{
    let (content, signature) = choose|content: Seq<u8>, signature: Seq<u8>| #[trigger]
        signs_itself(cert, content, signature);
    let checks = scheme_checks(0x0403, cert, content, signature);
    lemma_p256_first();
    assert(checks[0] == SignatureCheck::Valid);
    assert(accepted(checks));
    assert(cert == signed_der(content, signature));
}

/// The content of the two files of a certificate when a server has started: a
/// pair that was made is written to them, one that was loaded stays there.
pub open spec fn files_after(s: TlsSetup, before: Option<(Seq<u8>, Seq<u8>)>) -> Option<
    (Seq<u8>, Seq<u8>),
> {
    if s.fresh {
        Some((s.pair.cert@, s.pair.key@))
    } else {
        before
    }
}

/// The fingerprint survives a restart: after a start that succeeded, with the files
/// as it left them, every later start succeeds with the same fingerprint, which is
/// that of the certificate in its file, and writes nothing.
pub proof fn law_fingerprint_survives_restart(
    paths: CertPathsView,
    files: Option<(Seq<u8>, Seq<u8>)>,
    first: TlsSetup,
    again: Result<TlsSetup, CertError>,
)
    requires
        setup_outcome(paths, files, Ok(first)),
        setup_outcome(paths, files_after(first, files), again),
    ensures
        files_after(first, files) matches Some((cert, _)) && first.fingerprint@ == hex(
            sha256(cert),
        ),
        again matches Ok(second) && second.fingerprint@ == first.fingerprint@ && !second.fresh
            && files_after(second, files_after(first, files)) == files_after(first, files),
{
}

} // verus!
