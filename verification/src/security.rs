//! Security configurator: TLS verification toggles, client-certificate
//! material (PEM passed through, PKCS#12 decoded and re-encoded), and custom
//! CA trust bundles parsed for injection into the handshake context.
use vstd::prelude::*;
use vstd::slice::slice_to_vec;

use crate::error::InterceptorError;
use crate::interop::{CertificateType, Security};
use crate::strutil::{find_char, lemma_first_index_absent};

verus! {

#[verifier::external_type_specification]
#[verifier::external_body]
pub struct ExX509(openssl::x509::X509);

/// View of optional bytes.
pub open spec fn opt_bytes_view(o: Option<Vec<u8>>) -> Option<Seq<u8>> {
    match o {
        Some(v) => Some(v@),
        None => None,
    }
}

/// A password the PKCS#12 decoder can take: no interior NUL character.
pub open spec fn password_wf(p: Seq<char>) -> bool {
    forall|i: int| 0 <= i < p.len() ==> p[i] != '\0'
}

/// What decoding a PKCS#12 container with a password yields: the contained
/// leaf certificate and private key re-encoded as PEM (each possibly absent),
/// or nothing when the decode fails — a wrong password is a decode failure.
pub uninterp spec fn pkcs12_pem_of(data: Seq<u8>, password: Seq<char>) -> Option<
    (Option<Seq<u8>>, Option<Seq<u8>>),
>;

/// Relies on openssl's Pkcs12::from_der, Pkcs12::parse2, X509::to_pem and
/// PKey::private_key_to_pem_pkcs8: decode a PKCS#12 container with the given
/// password and re-encode its pieces as PEM; the outcome is a function of the
/// container bytes and the password alone, for the linked OpenSSL build
/// (acceptance of containers using legacy ciphers follows that build's
/// configuration). The decoder hands the password to a C string, so a
/// password with an interior NUL is never given to it.
#[verifier::external_body]
fn pkcs12_decode(data: &[u8], password: &str) -> (r: Result<
    (Option<Vec<u8>>, Option<Vec<u8>>),
    String,
>)
    requires
        password_wf(password@),
    ensures
        match r {
            Ok(p) => pkcs12_pem_of(data@, password@) == Some(
                (opt_bytes_view(p.0), opt_bytes_view(p.1)),
            ),
            Err(_) => pkcs12_pem_of(data@, password@) is None,
        },
{
    let parsed = openssl::pkcs12::Pkcs12::from_der(data).and_then(|p| p.parse2(password)).map_err(
        |e| e.to_string(),
    )?;
    let cert = match parsed.cert {
        Some(c) => Some(c.to_pem().map_err(|e| e.to_string())?),
        None => None,
    };
    let key = match parsed.pkey {
        Some(k) => Some(k.private_key_to_pem_pkcs8().map_err(|e| e.to_string())?),
        None => None,
    };
    Ok((cert, key))
}

/// What parsing one PEM bundle yields: the certificates it concatenates, or
/// nothing when the bundle does not parse.
pub uninterp spec fn pem_stack_of(b: Seq<u8>) -> Option<Seq<openssl::x509::X509>>;

/// Relies on X509::stack_from_pem: parse a concatenation of PEM certificates;
/// the outcome is a function of the bytes alone.
#[verifier::external_body]
fn pem_bundle_certs(b: &[u8]) -> (r: Result<Vec<openssl::x509::X509>, String>)
    ensures
        match r {
            Ok(v) => pem_stack_of(b@) == Some(v@),
            Err(_) => pem_stack_of(b@) is None,
        },
{
    openssl::x509::X509::stack_from_pem(b).map_err(|e| e.to_string())
}

/// The certificates a CA bundle list contributes: each bundle's parsed
/// certificates in order, a bundle that fails to parse skipped, not fatal.
pub open spec fn ca_concat_spec(bundles: Seq<Vec<u8>>) -> Seq<openssl::x509::X509>
    decreases bundles.len(),
{
    if bundles.len() == 0 {
        Seq::empty()
    } else {
        (match pem_stack_of(bundles[0]@) {
            Some(cs) => cs,
            None => Seq::empty(),
        }) + ca_concat_spec(bundles.drop_first())
    }
}

proof fn lemma_ca_snoc(bundles: Seq<Vec<u8>>, b: Vec<u8>)
    ensures
        ca_concat_spec(bundles.push(b)) == ca_concat_spec(bundles) + (match pem_stack_of(b@) {
            Some(cs) => cs,
            None => Seq::empty(),
        }),
    decreases bundles.len(),
{
    let parsed_certs = (match pem_stack_of(b@) {
        Some(cs) => cs,
        None => Seq::<openssl::x509::X509>::empty(),
    });
    if bundles.len() == 0 {
        assert(bundles.push(b).drop_first() =~= Seq::<Vec<u8>>::empty());
        assert(bundles.push(b)[0] == b);
        assert(ca_concat_spec(bundles.push(b).drop_first()).len() == 0);
        assert(ca_concat_spec(bundles).len() == 0);
        assert(ca_concat_spec(bundles.push(b)) == parsed_certs + ca_concat_spec(
            bundles.push(b).drop_first(),
        ));
        assert(ca_concat_spec(bundles.push(b)) =~= ca_concat_spec(bundles) + parsed_certs);
    } else {
        assert(bundles.push(b).drop_first() =~= bundles.drop_first().push(b));
        assert(bundles.push(b)[0] == bundles[0]);
        lemma_ca_snoc(bundles.drop_first(), b);
        assert(ca_concat_spec(bundles.push(b)) =~= ca_concat_spec(bundles) + parsed_certs);
    }
}

/// Parse every supplied CA bundle, collecting the certificates of those that
/// parse and skipping — never aborting on — those that do not.
pub fn collect_ca_certs(bundles: &Vec<Vec<u8>>) -> (r: Vec<openssl::x509::X509>)
    ensures
        r@ == ca_concat_spec(bundles@),
{
    let mut out: Vec<openssl::x509::X509> = Vec::new();
    let n = bundles.len();
    let mut i: usize = 0;
    while i < n
        invariant
            n == bundles@.len(),
            i <= n,
            out@ == ca_concat_spec(bundles@.subrange(0, i as int)),
        decreases n - i,
    {
        match pem_bundle_certs(bundles[i].as_slice()) {
            Ok(mut certs) => {
                out.append(&mut certs);
            },
            Err(_) => {},
        }
        proof {
            lemma_ca_snoc(bundles@.subrange(0, i as int), bundles@[i as int]);
            assert(bundles@.subrange(0, i as int).push(bundles@[i as int]) =~= bundles@.subrange(
                0,
                i + 1,
            ));
        }
        i += 1;
    }
    proof {
        assert(bundles@.subrange(0, n as int) =~= bundles@);
    }
    out
}

/// Client-certificate material ready for the session: PEM blobs.
pub struct ClientCertPem {
    pub cert: Vec<u8>,
    pub key: Vec<u8>,
}

/// The decode gave a complete container: both certificate and key present.
pub open spec fn pfx_complete(data: Seq<u8>, password: Seq<char>) -> bool {
    match pkcs12_pem_of(data, password) {
        Some(pair) => pair.0 is Some && pair.1 is Some,
        None => false,
    }
}

/// Accept a decoded container only when both the certificate and the key are
/// present; an incomplete container is a certificate error.
pub fn pem_from_parsed(cert: Option<Vec<u8>>, key: Option<Vec<u8>>) -> (r: Result<
    ClientCertPem,
    InterceptorError,
>)
    ensures
        match (cert, key) {
            (Some(c), Some(k)) => r matches Ok(p) && p.cert == c && p.key == k,
            _ => r matches Err(e) && e matches InterceptorError::Certificate { .. },
        },
{
    match (cert, key) {
        (Some(c), Some(k)) => Ok(ClientCertPem { cert: c, key: k }),
        _ => Err(
            InterceptorError::Certificate {
                message: "PFX container is missing its certificate or private key".to_owned(),
                cause: None,
            },
        ),
    }
}

/// Resolve a client-certificate specification to PEM blobs: PEM material is
/// installed as supplied; a PKCS#12 container is decoded with its password,
/// and any failure — a wrong password included, or a password the decoder
/// cannot take — is a certificate error, never a network error and never a
/// silent fallback to no certificate.
pub fn resolve_client_cert(cert: &CertificateType) -> (r: Result<ClientCertPem, InterceptorError>)
    ensures
        *cert matches CertificateType::Pem { cert: c, key: k } ==> r matches Ok(p) && p.cert@ == c@
            && p.key@ == k@,
        r matches Err(e) ==> e matches InterceptorError::Certificate { .. },
        *cert matches CertificateType::Pfx { data, password } ==> match r {
            Ok(p) => password_wf(password@) && pkcs12_pem_of(data@, password@) == Some(
                (Some(p.cert@), Some(p.key@)),
            ),
            Err(_) => !password_wf(password@) || !pfx_complete(data@, password@),
        },
        *cert matches CertificateType::Pfx { data, password } && password_wf(password@)
            && pfx_complete(data@, password@) ==> r is Ok,
{
    match cert {
        CertificateType::Pem { cert: c, key: k } => Ok(
            ClientCertPem { cert: slice_to_vec(c.as_slice()), key: slice_to_vec(k.as_slice()) },
        ),
        CertificateType::Pfx { data, password } => {
            match find_char(password.as_str(), '\0') {
                Some(i) => {
                    proof {
                        assert(password@[i as int] == '\0');
                        assert(!password_wf(password@));
                    }
                    Err(
                        InterceptorError::Certificate {
                            message: "PFX password holds a NUL character".to_owned(),
                            cause: None,
                        },
                    )
                },
                None => {
                    proof {
                        lemma_first_index_absent(password@, '\0');
                    }
                    match pkcs12_decode(data.as_slice(), password.as_str()) {
                        Ok(pair) => pem_from_parsed(pair.0, pair.1),
                        Err(cause) => Err(
                            InterceptorError::Certificate {
                                message: "Failed to decode PFX container".to_owned(),
                                cause: Some(cause),
                            },
                        ),
                    }
                },
            }
        },
    }
}

/// TLS settings for one session, fully resolved.
pub struct TlsPlan {
    pub verify_peer: bool,
    pub verify_host: bool,
    pub client: Option<ClientCertPem>,
    pub ca_certs: Vec<openssl::x509::X509>,
}

/// The client certificate a policy supplies, if any.
pub open spec fn client_cert_of(s: Option<Security>) -> Option<CertificateType> {
    match s {
        Some(sec) => match sec.certificates {
            Some(cs) => cs.client,
            None => None,
        },
        None => None,
    }
}

/// The CA certificates a policy supplies.
pub open spec fn ca_certs_of(s: Option<Security>) -> Seq<openssl::x509::X509> {
    match s {
        Some(sec) => match sec.certificates {
            Some(cs) => match cs.ca {
                Some(bundles) => ca_concat_spec(bundles@),
                None => Seq::empty(),
            },
            None => Seq::empty(),
        },
        None => Seq::empty(),
    }
}

/// Resolve a security policy into the session's TLS settings. Verification
/// toggles come straight from the policy and default to enabled; a supplied
/// client certificate is always installed or the whole translation fails.
pub fn security_plan(security: &Option<Security>) -> (r: Result<TlsPlan, InterceptorError>)
    ensures
        r matches Ok(p) ==> match *security {
            Some(s) => p.verify_peer == s.validate_certificates && p.verify_host == s.verify_host,
            None => p.verify_peer && p.verify_host,
        },
        r matches Ok(p) ==> match client_cert_of(*security) {
            Some(ct) => match ct {
                CertificateType::Pem { cert: c, key: k } => p.client matches Some(cp) && cp.cert@
                    == c@ && cp.key@ == k@,
                CertificateType::Pfx { data, password } => p.client matches Some(cp)
                    && pkcs12_pem_of(data@, password@) == Some(
                    (Some(cp.cert@), Some(cp.key@)),
                ),
            },
            None => p.client is None,
        },
        r matches Ok(p) ==> p.ca_certs@ == ca_certs_of(*security),
        r matches Err(e) ==> e matches InterceptorError::Certificate { .. } && match client_cert_of(
            *security,
        ) {
            Some(ct) => ct matches CertificateType::Pfx { data, password } && (!password_wf(
                password@,
            ) || !pfx_complete(data@, password@)),
            None => false,
        },
{
    match security {
        None => Ok(
            TlsPlan { verify_peer: true, verify_host: true, client: None, ca_certs: Vec::new() },
        ),
        Some(sec) => {
            let mut client: Option<ClientCertPem> = None;
            let mut ca_certs: Vec<openssl::x509::X509> = Vec::new();
            match &sec.certificates {
                Some(cs) => {
                    match &cs.client {
                        Some(ct) => {
                            match resolve_client_cert(ct) {
                                Ok(p) => {
                                    client = Some(p);
                                },
                                Err(e) => {
                                    return Err(e);
                                },
                            }
                        },
                        None => {},
                    }
                    match &cs.ca {
                        Some(bundles) => {
                            ca_certs = collect_ca_certs(bundles);
                        },
                        None => {},
                    }
                },
                None => {},
            }
            Ok(
                TlsPlan {
                    verify_peer: sec.validate_certificates,
                    verify_host: sec.verify_host,
                    client,
                    ca_certs,
                },
            )
        },
    }
}

} // verus!
