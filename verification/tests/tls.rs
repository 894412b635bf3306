use rfp::client::config::{ClientConfig, TlsConfig, Transport};
use rfp::client::tls::{
    build_connector, connector, judge_server_name, judge_signature, root_store,
    scheme_algorithms, tls_connect, undamaged_certificates, verify_handshake_signature, verify_server_cert, InvalidFingerprint,
    SignatureCheck, SignatureError, TlsPlan, Trust,
};
use rfp::fingerprint::sha256_hex;
use rfp::quic::{ALPN, KEEPALIVE_SECS, MAX_STREAMS};
use rfp::server::tls::{
    cert_paths, cert_source, certificate_names, generate_self_signed, judge_pair, judge_setup,
    load_or_generate, loaded_pair, setup, CertError, CertPair, CertPaths, CertSource, AUTO_CERT,
    AUTO_KEY,
};
use rfp::client::tls::SignatureCheck::{Invalid, Unsupported, Valid};
use rustls::SignatureScheme;
use rustls_pki_types::PrivateKeyDer;

fn contains(bytes: &[u8], part: &[u8]) -> bool {
    bytes.windows(part.len()).any(|w| w == part)
}

fn sign(key: &[u8], scheme: SignatureScheme, message: &[u8]) -> Vec<u8> {
    let key = PrivateKeyDer::try_from(key.to_vec()).unwrap();
    let key = rustls::crypto::ring::sign::any_supported_type(&key).unwrap();
    key.choose_scheme(&[scheme]).unwrap().sign(message).unwrap()
}

const P256: u16 = 0x0403;

#[test]
fn fingerprints_are_pinned_or_refused() {
    let fp = "0123456789abcdef".repeat(4);
    assert_eq!(connector(None), Ok(Trust::SystemRoots));
    assert_eq!(connector(Some(&fp)), Ok(Trust::Pinned(fp.clone())));
    let spelled: Vec<String> =
        fp.to_uppercase().as_bytes().chunks(2).map(|c| String::from_utf8(c.to_vec()).unwrap()).collect();
    assert_eq!(connector(Some(&spelled.join(":"))), Ok(Trust::Pinned(fp.clone())));
    assert_eq!(connector(Some(&fp[1..])), Err(InvalidFingerprint));
    assert_eq!(connector(Some("")), Err(InvalidFingerprint));
}

#[test]
fn plain_text_only_on_request() {
    let cfg = |enabled: bool, fp: Option<&str>| ClientConfig {
        server_addr: "127.0.0.1".into(),
        server_port: 7000,
        transport: Transport::Tcp,
        token: "".into(),
        proxies: vec![],
        tls: TlsConfig { enabled, server_fingerprint: fp.map(|s| s.to_string()) },
    };
    assert_eq!(build_connector(&cfg(false, Some("nonsense"))), Ok(TlsPlan::Plain));
    assert_eq!(
        build_connector(&cfg(true, None)),
        Ok(TlsPlan::Encrypted(Trust::SystemRoots))
    );
    assert_eq!(build_connector(&cfg(true, Some("nonsense"))), Err(InvalidFingerprint));
}

#[test]
fn tls_pinned_certificate_accepted() {
    let pair = generate_self_signed().unwrap();
    let pinned = sha256_hex(&pair.cert);
    assert!(verify_server_cert(&pinned, &pair.cert));
    let other = generate_self_signed().unwrap();
    assert!(!verify_server_cert(&pinned, &other.cert));
}

#[test]
fn tls_wrong_fingerprint_rejected() {
    let pair = generate_self_signed().unwrap();
    let pinned = match connector(Some(&"00".repeat(32))) {
        Ok(Trust::Pinned(fp)) => fp,
        other => panic!("{other:?}"),
    };
    assert!(!verify_server_cert(&pinned, &pair.cert));
}

#[test]
fn self_signed_certificates_name_the_product_and_no_host() {
    let pair = generate_self_signed().unwrap();
    assert!(!contains(&pair.cert, &[0x55, 0x1d, 0x11]));
    let names = certificate_names(&pair.cert, "example.com").unwrap();
    assert_eq!(
        names.subject,
        b"\x31\x11\x30\x0f\x06\x03\x55\x04\x03\x0c\x08rust-frp".to_vec()
    );
    assert_eq!(names.issuer, names.subject);
    assert_eq!(names.presented, Some(vec![]));
    for host in ["rust-frp", "127.0.0.1", "::1"] {
        assert_eq!(certificate_names(&pair.cert, host).unwrap().presented, Some(vec![]));
    }
    let loaded = loaded_pair(pair.cert.clone(), pair.key.clone()).unwrap();
    assert_eq!(loaded.cert, pair.cert);
    assert_eq!(loaded.key, pair.key);
    assert_ne!(generate_self_signed().unwrap().cert, pair.cert);
}

#[test]
fn keys_that_are_none_are_refused() {
    let e = loaded_pair(vec![1], vec![2, 3]).unwrap_err();
    assert_eq!(e.text(), "解析私钥失败: unknown or invalid key format");
    let e = judge_pair(vec![1], vec![2], Some("no".into())).unwrap_err();
    assert_eq!(e.text(), "解析私钥失败: no");
    let pair = judge_pair(vec![1], vec![2], None).unwrap();
    assert_eq!((pair.cert, pair.key), (vec![1], vec![2]));
}

#[test]
fn certificate_files() {
    let auto = cert_paths(None, None).unwrap();
    assert_eq!((auto.cert.as_str(), auto.key.as_str()), (AUTO_CERT, AUTO_KEY));
    assert_eq!(AUTO_CERT, "rfps-auto-cert.der");
    assert!(!auto.configured);
    let named = cert_paths(Some("c"), Some("k")).unwrap();
    assert!(named.configured);
    assert_eq!((named.cert.as_str(), named.key.as_str()), ("c", "k"));
    for (c, k) in [(Some("c"), None), (None, Some("k"))] {
        let e = cert_paths(c, k).unwrap_err();
        assert!(matches!(e, CertError::Unpaired));
        assert_eq!(e.text(), "tls.cert 与 tls.key 必须同时配置或同时省略");
    }
}

#[test]
fn certificates_are_loaded_or_made() {
    let source = |paths: &CertPaths, c: bool, k: bool| cert_source(paths, c, k);
    let auto = cert_paths(None, None).unwrap();
    assert_eq!(source(&auto, true, true).unwrap(), CertSource::Load);
    assert_eq!(source(&auto, true, false).unwrap(), CertSource::Generate);
    assert_eq!(source(&auto, false, false).unwrap(), CertSource::Generate);
    let named = cert_paths(Some("c"), Some("k")).unwrap();
    assert_eq!(source(&named, true, true).unwrap(), CertSource::Load);
    assert_eq!(
        source(&named, false, true).unwrap_err().text(),
        "指定了证书路径但文件不存在: c / k"
    );
}

#[test]
fn signatures_of_the_certificate_are_accepted() {
    let pair = generate_self_signed().unwrap();
    let signature = sign(&pair.key, SignatureScheme::ECDSA_NISTP256_SHA256, b"transcript");
    assert_eq!(verify_handshake_signature(b"transcript", &pair.cert, P256, &signature), Ok(()));
}

#[test]
fn other_signatures_are_refused() {
    let pair = generate_self_signed().unwrap();
    let other = generate_self_signed().unwrap();
    let signature = sign(&pair.key, SignatureScheme::ECDSA_NISTP256_SHA256, b"transcript");
    let bad = Err(SignatureError::BadSignature);
    assert_eq!(verify_handshake_signature(b"transcripT", &pair.cert, P256, &signature), bad);
    assert_eq!(verify_handshake_signature(b"transcript", &other.cert, P256, &signature), bad);
    assert_eq!(verify_handshake_signature(b"transcript", &pair.cert, P256, b""), bad);
    // No algorithm of Ed25519 fits the key.
    assert_eq!(verify_handshake_signature(b"transcript", &pair.cert, 0x0807, &signature), bad);
    assert_eq!(
        verify_handshake_signature(b"transcript", b"no certificate", P256, &signature),
        Err(SignatureError::BadEncoding)
    );
    // An unknown scheme is noticed before the certificate is looked at.
    assert_eq!(
        verify_handshake_signature(b"transcript", b"no certificate", 0x0201, &signature),
        Err(SignatureError::UnadvertisedScheme)
    );
}

#[test]
fn every_offered_scheme_is_known() {
    let pair = generate_self_signed().unwrap();
    for scheme in
        rustls::crypto::ring::default_provider().signature_verification_algorithms.supported_schemes()
    {
        let r = verify_handshake_signature(b"m", &pair.cert, u16::from(scheme), b"s");
        assert_eq!(r, Err(SignatureError::BadSignature), "{scheme:?}");
    }
}

#[test]
fn the_first_algorithm_that_fits_decides() {
    let judge = |checks: &[SignatureCheck]| judge_signature(true, &checks.to_vec());
    assert_eq!(judge(&[Unsupported, Valid]), Ok(()));
    assert_eq!(judge(&[Valid, Invalid]), Ok(()));
    assert_eq!(judge(&[Invalid, Valid]), Err(SignatureError::BadSignature));
    assert_eq!(judge(&[Unsupported, Unsupported]), Err(SignatureError::BadSignature));
    assert_eq!(judge(&[]), Err(SignatureError::UnadvertisedScheme));
    assert_eq!(judge_signature(false, &vec![Valid]), Err(SignatureError::BadEncoding));
    assert_eq!(judge_signature(false, &vec![]), Err(SignatureError::UnadvertisedScheme));
}

#[test]
fn algorithms_of_a_scheme_are_listed_in_order() {
    let list = vec![(7, 2), (8, 1), (7, 1), (9, 0)];
    assert_eq!(scheme_algorithms(&list, 7), vec![(0, 0), (0, 1), (2, 0)]);
    assert_eq!(scheme_algorithms(&list, 8), vec![(1, 0)]);
    assert_eq!(scheme_algorithms(&list, 9), vec![]);
    assert_eq!(scheme_algorithms(&list, 1), vec![]);
}

#[test]
fn certificate_authorities_are_read_from_pem() {
    let make = || {
        let key = rcgen::KeyPair::generate().unwrap();
        rcgen::CertificateParams::default().self_signed(&key).unwrap()
    };
    let (a, b) = (make(), make());
    let damaged = "-----BEGIN CERTIFICATE-----\n!!!!\n-----END CERTIFICATE-----\n";
    let text = format!("# bundle\n{}{damaged}{}", a.pem(), b.pem());
    assert_eq!(root_store(text.as_bytes()), vec![a.der().to_vec(), b.der().to_vec()]);
    assert_eq!(root_store(b"nothing here"), Vec::<Vec<u8>>::new());
    assert_eq!(
        undamaged_certificates(&vec![None, Some(vec![1]), None, Some(vec![2])]),
        vec![vec![1], vec![2]]
    );
}

#[test]
fn quic_parameters() {
    assert_eq!(&ALPN, b"rfp/1");
    assert_eq!(MAX_STREAMS, 256);
    assert_eq!(KEEPALIVE_SECS, 15);
}

#[test]
fn encrypted_connections_need_a_server_name() {
    let secure = TlsPlan::Encrypted(Trust::SystemRoots);
    for addr in ["127.0.0.1", "::1", "example.com"] {
        assert_eq!(tls_connect(&secure, addr), Ok(()));
    }
    let problem = "server_addr 不能用作 TLS SNI: invalid dns name";
    assert_eq!(tls_connect(&secure, "not a name"), Err(problem.into()));
    assert_eq!(tls_connect(&TlsPlan::Plain, "not a name"), Ok(()));
    assert_eq!(
        judge_server_name(&secure, Some("bad".into())),
        Err("server_addr 不能用作 TLS SNI: bad".into())
    );
    assert_eq!(judge_server_name(&secure, None), Ok(()));
}

#[test]
fn names_in_certificates() {
    let key = rcgen::KeyPair::generate().unwrap();
    let mut params =
        rcgen::CertificateParams::new(vec!["a.example".to_string(), "10.0.0.1".to_string()]).unwrap();
    params.subject_alt_names.push(rcgen::SanType::URI("x:y".try_into().unwrap()));
    let cert = params.self_signed(&key).unwrap();
    let presented = vec![
        "DnsName(\"a.example\")".to_string(),
        "IpAddress(10.0.0.1)".to_string(),
        "UniformResourceIdentifier(\"x:y\")".to_string(),
    ];
    let names = certificate_names(cert.der(), "b.example").unwrap();
    assert_eq!(names.presented, Some(presented.clone()));
    assert!(contains(&names.subject, b"rcgen self signed cert"));
    assert_eq!(certificate_names(cert.der(), "10.0.0.2").unwrap().presented, Some(presented));
    assert_eq!(certificate_names(cert.der(), "a.example").unwrap().presented, None);
    assert_eq!(certificate_names(cert.der(), "10.0.0.1").unwrap().presented, None);
    assert_eq!(certificate_names(cert.der(), "not a name").unwrap().presented, None);
    assert_eq!(certificate_names(b"no certificate", "a.example"), None);
}

// Splits off the first value in DER: its content with and without its head, and
// what follows.
fn der_value(bytes: &[u8]) -> (&[u8], &[u8], &[u8]) {
    let (head, len) = match bytes[1] {
        0x81 => (3, bytes[2] as usize),
        0x82 => (4, bytes[2] as usize * 256 + bytes[3] as usize),
        n => (2, n as usize),
    };
    (&bytes[..head + len], &bytes[head..head + len], &bytes[head + len..])
}

#[test]
fn self_signed_certificates_are_signed_with_their_own_key() {
    let pair = generate_self_signed().unwrap();
    let (whole, body, _) = der_value(&pair.cert);
    assert_eq!(whole, pair.cert.as_slice());
    let (content, _, rest) = der_value(body);
    let (algorithm, _, rest) = der_value(rest);
    assert_eq!(algorithm, b"\x30\x0a\x06\x08\x2a\x86\x48\xce\x3d\x04\x03\x02");
    let (_, bits, rest) = der_value(rest);
    assert_eq!((bits[0], rest.len()), (0, 0));
    let signature = &bits[1..];
    assert_eq!(verify_handshake_signature(content, &pair.cert, P256, signature), Ok(()));
    let other = generate_self_signed().unwrap();
    assert_eq!(
        verify_handshake_signature(content, &other.cert, P256, signature),
        Err(SignatureError::BadSignature)
    );
}

#[test]
fn the_fingerprint_survives_a_restart() {
    let paths = cert_paths(None, None).unwrap();
    let first = setup(&paths, None).unwrap();
    assert!(first.fresh);
    assert_eq!(first.fingerprint, sha256_hex(&first.pair.cert));
    let files = (first.pair.cert.clone(), first.pair.key.clone());
    let second = setup(&paths, Some(files)).unwrap();
    assert!(!second.fresh);
    assert_eq!(second.fingerprint, first.fingerprint);
    assert_eq!(second.pair.key, first.pair.key);
}

#[test]
fn certificates_that_cannot_be_used() {
    let (a, b) = (generate_self_signed().unwrap(), generate_self_signed().unwrap());
    let named = cert_paths(Some("c"), Some("k")).unwrap();
    let e = setup(&named, None).unwrap_err();
    assert_eq!(e.text(), "指定了证书路径但文件不存在: c / k");
    let e = setup(&named, Some((a.cert.clone(), vec![1]))).unwrap_err();
    assert!(matches!(e, CertError::BadKey(_)));
    let e = setup(&named, Some((a.cert.clone(), b.key.clone()))).unwrap_err();
    assert!(matches!(e, CertError::Config(_)));
    assert!(e.text().starts_with("TLS 配置失败: "));
    assert!(setup(&named, Some((b"no certificate".to_vec(), a.key.clone()))).is_err());
    assert!(setup(&named, Some((a.cert, a.key))).is_ok());
}

#[test]
fn the_error_of_a_mismatched_pair_is_that_of_the_tls_library() {
    let (a, b) = (generate_self_signed().unwrap(), generate_self_signed().unwrap());
    let key = PrivateKeyDer::try_from(b.key.clone()).unwrap();
    let expected = rustls::ServerConfig::builder_with_provider(
        rustls::crypto::ring::default_provider().into(),
    )
    .with_safe_default_protocol_versions()
    .unwrap()
    .with_no_client_auth()
    .with_single_cert(vec![a.cert.clone().into()], key)
    .unwrap_err();
    let paths = cert_paths(None, None).unwrap();
    let e = setup(&paths, Some((a.cert, b.key))).unwrap_err();
    assert_eq!(e.text(), format!("TLS 配置失败: {expected}"));
}

#[test]
fn setups_are_judged() {
    let pair = || CertPair { cert: vec![1], key: vec![2] };
    let s = judge_setup(pair(), true, None).unwrap();
    assert_eq!(s.fingerprint, sha256_hex(&[1]));
    assert!(s.fresh);
    let e = judge_setup(pair(), false, Some("no".into())).unwrap_err();
    assert_eq!(e.text(), "TLS 配置失败: no");
    let auto = cert_paths(None, None).unwrap();
    let (made, fresh) = load_or_generate(&auto, None).unwrap();
    assert!(fresh);
    let (again, fresh) =
        load_or_generate(&auto, Some((made.cert.clone(), made.key.clone()))).unwrap();
    assert!(!fresh);
    assert_eq!((again.cert, again.key), (made.cert, made.key));
}
