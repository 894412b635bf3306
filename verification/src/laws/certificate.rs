//! The server's certificate.
use crate::client::tls::{server_name_error, signature_check, SignatureCheck};
use crate::fingerprint::sha256;
use crate::laws::trust::{is_hex_of, lemma_is_hex_of};
use crate::server::tls::{
    cert_paths, cert_source, certificate_issuer, certificate_subject, common_name_der,
    generate_self_signed, judge_pair, judge_setup, load_or_generate, loaded_pair, pair_error,
    presented_names, private_key_error, self_signed_for, setup, signed_der, signs_itself,
    CertError, CertPair, CertPaths, CertSource, TlsSetup,
};
use vstd::prelude::*;

verus! {

/// Certificate and key are configured together, or both are the files of the server's
/// own.
pub proof fn law_cert_paths(
    cert: Option<&str>,
    key: Option<&str>,
    r: Result<CertPaths, CertError>,
)
    requires
        call_ensures(cert_paths, (cert, key), r),
    ensures
        match (cert, key) {
            (Some(c), Some(k)) => r matches Ok(paths) && paths.cert@ == c@ && paths.key@ == k@
                && paths.configured,
            (None, None) => r matches Ok(paths) && paths.cert@ == "rfps-auto-cert.der"@
                && paths.key@ == "rfps-auto-key.der"@ && !paths.configured,
            _ => r matches Err(e) && e is Unpaired,
        },
{
}

/// A certificate is loaded if both files exist. If one does not, a configured certificate
/// is missing, and the server's own is made.
pub proof fn law_cert_source(
    paths: &CertPaths,
    cert_exists: bool,
    key_exists: bool,
    r: Result<CertSource, CertError>,
)
    requires
        call_ensures(cert_source, (paths, cert_exists, key_exists), r),
    ensures
        if cert_exists && key_exists {
            r matches Ok(source) && source is Load
        } else if paths.configured {
            r matches Err(CertError::Missing { cert, key }) && cert@ == paths.cert@ && key@
                == paths.key@
        } else {
            r matches Ok(source) && source is Generate
        },
{
}

/// Whether a pair is one that the server makes: the key is a private key and belongs to
/// the certificate, which is from the server and for the server, names no host, and
/// carries the signature of its own key.
pub open spec fn rightly_made(pair: CertPair) -> bool {
    &&& private_key_error(pair.key@) is None
    &&& pair_error(pair.cert@, pair.key@) is None
    &&& certificate_subject(pair.cert@) == Some(common_name_der("rust-frp"@))
    &&& certificate_issuer(pair.cert@) == Some(common_name_der("rust-frp"@))
    &&& forall|host: Seq<char>|
        server_name_error(host) is None ==> #[trigger] presented_names(pair.cert@, host) == Some(
            Seq::<Seq<char>>::empty(),
        )
    &&& exists|content: Seq<u8>, signature: Seq<u8>|
        pair.cert@ == #[trigger] signed_der(content, signature) && signature_check(
            1,
            0,
            pair.cert@,
            content,
            signature,
        ) == SignatureCheck::Valid
}

proof fn lemma_rightly_made(pair: CertPair)
    requires
        self_signed_for("rust-frp"@, pair.cert@, pair.key@),
    ensures
        rightly_made(pair),
{
    let (content, signature) = choose|content: Seq<u8>, signature: Seq<u8>| #[trigger]
        signs_itself(pair.cert@, content, signature);
    assert(pair.cert@ == signed_der(content, signature));
}

/// A certificate that is made is as it should be.
pub proof fn law_generate_self_signed(r: Result<CertPair, CertError>)
    requires
        call_ensures(generate_self_signed, (), r),
    ensures
        match r {
            Ok(pair) => rightly_made(pair),
            Err(e) => e is Generation,
        },
{
    if let Ok(pair) = r {
        lemma_rightly_made(pair);
    }
}

/// The content of two files is a pair exactly if that of the second is a private key.
pub proof fn law_loaded_pair(cert: Vec<u8>, key: Vec<u8>, r: Result<CertPair, CertError>)
    requires
        call_ensures(loaded_pair, (cert, key), r),
    ensures
        match private_key_error(key@) {
            None => r matches Ok(pair) && pair.cert@ == cert@ && pair.key@ == key@,
            Some(reason) => r matches Err(CertError::BadKey(text)) && text@ == reason,
        },
{
}

/// The same, given why the key is none.
pub proof fn law_judge_pair(
    cert: Vec<u8>,
    key: Vec<u8>,
    key_error: Option<String>,
    r: Result<CertPair, CertError>,
)
    requires
        call_ensures(judge_pair, (cert, key, key_error), r),
    ensures
        match key_error {
            None => r matches Ok(pair) && pair.cert@ == cert@ && pair.key@ == key@,
            Some(reason) => r matches Err(CertError::BadKey(text)) && text@ == reason@,
        },
{
}

/// A pair that can be used is used as it is, under the fingerprint of its certificate.
pub proof fn law_judge_setup(
    pair: CertPair,
    fresh: bool,
    config_error: Option<String>,
    r: Result<TlsSetup, CertError>,
)
    requires
        call_ensures(judge_setup, (pair, fresh, config_error), r),
    ensures
        match config_error {
            None => r matches Ok(s) && s.pair == pair && s.fresh == fresh && is_hex_of(
                s.fingerprint@,
                sha256(pair.cert@),
            ),
            Some(reason) => r matches Err(CertError::Config(text)) && text@ == reason@,
        },
{
    lemma_is_hex_of(sha256(pair.cert@));
}

/// With both files the pair in them is taken; without them a configured pair is missing,
/// and otherwise one is made.
pub proof fn law_load_or_generate(
    paths: &CertPaths,
    files: Option<(Vec<u8>, Vec<u8>)>,
    r: Result<(CertPair, bool), CertError>,
)
    requires
        call_ensures(load_or_generate, (paths, files), r),
    ensures
        match files {
            Some((cert, key)) => match private_key_error(key@) {
                None => r matches Ok((pair, fresh)) && pair.cert@ == cert@ && pair.key@ == key@
                    && !fresh,
                Some(reason) => r matches Err(CertError::BadKey(text)) && text@ == reason,
            },
            None => if paths.configured {
                r matches Err(CertError::Missing { cert, key }) && cert@ == paths.cert@ && key@
                    == paths.key@
            } else {
                match r {
                    Ok((pair, fresh)) => fresh && rightly_made(pair),
                    Err(e) => e is Generation,
                }
            },
        },
{
    if let Ok((pair, fresh)) = r {
        if files is None && !paths.configured {
            lemma_rightly_made(pair);
        }
    }
}

/// The server starts with the pair in its files if key and pair can be used, and says why
/// if not; without files it says that a configured pair is missing, or starts with one
/// that it makes. Either way under the fingerprint of the certificate.
pub proof fn law_setup(
    paths: &CertPaths,
    files: Option<(Vec<u8>, Vec<u8>)>,
    r: Result<TlsSetup, CertError>,
)
    requires
        call_ensures(setup, (paths, files), r),
    ensures
        r matches Ok(s) ==> is_hex_of(s.fingerprint@, sha256(s.pair.cert@)),
        match files {
            Some((cert, key)) => match (private_key_error(key@), pair_error(cert@, key@)) {
                (Some(reason), _) => r matches Err(CertError::BadKey(text)) && text@ == reason,
                (None, Some(reason)) => r matches Err(CertError::Config(text)) && text@ == reason,
                (None, None) => r matches Ok(s) && s.pair.cert@ == cert@ && s.pair.key@ == key@
                    && !s.fresh,
            },
            None => if paths.configured {
                r matches Err(CertError::Missing { cert, key }) && cert@ == paths.cert@ && key@
                    == paths.key@
            } else {
                match r {
                    Ok(s) => s.fresh && rightly_made(s.pair),
                    Err(e) => e is Generation,
                }
            },
        },
{
    if let Ok(s) = r {
        lemma_is_hex_of(sha256(s.pair.cert@));
        if files is None && !paths.configured {
            lemma_rightly_made(s.pair);
        }
    }
}

} // verus!
