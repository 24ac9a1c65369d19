//! Request translator: maps one structured request onto a complete transfer
//! configuration — method, URL, wire header lines, payload, credentials, TLS
//! material and proxy — with header accumulation strictly additive.
use vstd::prelude::*;

use crate::auth::{auth_credentials_spec, auth_headers_spec, auth_plan, cred_view, AuthPlan};
use crate::codec::{
    body_bytes_spec, content_headers_spec, encode_content, form_parts_spec, hview, opt_view,
    parts_view, Payload,
};
use crate::error::InterceptorError;
use crate::header::{lines_view, wire_header_lines, wire_lines_spec};
use crate::interop::{method_str, ContentType, Request};
use crate::json::{json_parse_of, json_within_parse_depth};
use crate::interop::CertificateType;
use crate::security::{
    ca_certs_of, client_cert_of, password_wf, pfx_complete, pkcs12_pem_of, security_plan,
    ClientCertPem, TlsPlan,
};

verus! {

/// Everything one transfer session is configured with, as plain values.
pub struct TransferPlan {
    pub method: String,
    pub url: String,
    pub header_lines: Vec<String>,
    pub payload: Option<Payload>,
    pub credentials: Option<(String, String)>,
    pub digest_auth: bool,
    pub verify_peer: bool,
    pub verify_host: bool,
    pub client_cert: Option<ClientCertPem>,
    pub ca_certs: Vec<openssl::x509::X509>,
    pub proxy_url: Option<String>,
    /// Automatic proxy auth-scheme negotiation; set exactly when a proxy is.
    pub proxy_auth_auto: bool,
}

/// The caller-supplied headers of a request.
pub open spec fn base_headers_view(req: Request) -> Seq<(Seq<char>, Seq<Seq<char>>)> {
    match req.headers {
        Some(h) => hview(h@),
        None => Seq::empty(),
    }
}

/// The header directives of an optional body.
pub open spec fn content_headers_of(c: Option<ContentType>) -> Seq<(Seq<char>, Seq<Seq<char>>)> {
    match c {
        Some(ct) => content_headers_spec(ct),
        None => Seq::empty(),
    }
}

/// The synthesized headers of an optional auth specification.
pub open spec fn auth_headers_of(a: Option<crate::interop::AuthType>) -> Seq<
    (Seq<char>, Seq<Seq<char>>),
> {
    match a {
        Some(x) => auth_headers_spec(x),
        None => Seq::empty(),
    }
}

/// The credentials of an optional auth specification.
pub open spec fn auth_credentials_of(a: Option<crate::interop::AuthType>) -> Option<
    (Seq<char>, Seq<char>),
> {
    match a {
        Some(x) => auth_credentials_spec(x),
        None => None,
    }
}

/// The complete wire header lines of a request: caller headers first, then
/// the body's directives, then the auth lines — additive, never overwritten.
pub open spec fn plan_lines_spec(req: Request) -> Seq<Seq<char>> {
    wire_lines_spec(base_headers_view(req)) + wire_lines_spec(content_headers_of(req.content))
        + wire_lines_spec(auth_headers_of(req.auth))
}

/// How the plan's payload relates to the request's body.
pub open spec fn payload_rel(c: ContentType, pl: Payload) -> bool {
    match c {
        ContentType::Form { content: entries } => pl matches Payload::Multipart { parts }
            && parts_view(parts@) == form_parts_spec(entries@),
        _ => pl matches Payload::Bytes { data } && data@ == body_bytes_spec(c),
    }
}

proof fn lemma_lines_view_concat(a: Seq<String>, b: Seq<String>)
    ensures
        lines_view(a + b) == lines_view(a) + lines_view(b),
{
    assert(lines_view(a + b).len() == (a + b).len());
    assert forall|i: int| 0 <= i < (a + b).len() implies lines_view(a + b)[i] == (lines_view(a)
        + lines_view(b))[i] by {
        assert(lines_view(a + b)[i] == (a + b)[i]@);
        if i < a.len() {
            assert((a + b)[i] == a[i]);
            assert(lines_view(a)[i] == a[i]@);
        } else {
            assert((a + b)[i] == b[i - a.len()]);
            assert(lines_view(b)[i - a.len()] == b[i - a.len()]@);
        }
    }
    assert(lines_view(a + b) =~= lines_view(a) + lines_view(b));
}

/// Translate a request into its full transfer configuration. Any step's
/// failure aborts the translation: a body that cannot serialize is a parse
/// error, certificate material that cannot be decoded is a certificate error,
/// and nothing is ever sent for a request that failed to translate.
pub fn prepare(req: &Request) -> (r: Result<TransferPlan, InterceptorError>)
    ensures
        r matches Ok(p) ==> p.method@ == method_str(req.method) && p.url@ == req.url@,
        r matches Ok(p) ==> lines_view(p.header_lines@) == plan_lines_spec(*req),
        r matches Ok(p) ==> match req.content {
            Some(c) => p.payload matches Some(pl) && payload_rel(c, pl),
            None => p.payload is None,
        },
        r matches Ok(p) ==> (match req.content {
            Some(ContentType::Json { content: v }) => p.payload matches Some(pl) && (pl matches
                Payload::Bytes { data } ==> (json_within_parse_depth(v) ==> json_parse_of(data@)
                == Some(v))),
            _ => true,
        }),
        r matches Ok(p) ==> cred_view(p.credentials) == auth_credentials_of(req.auth)
            && p.digest_auth == (match req.auth {
            Some(crate::interop::AuthType::Digest { .. }) => true,
            _ => false,
        }),
        r matches Ok(p) ==> match req.security {
            Some(s) => p.verify_peer == s.validate_certificates && p.verify_host == s.verify_host,
            None => p.verify_peer && p.verify_host,
        },
        r matches Ok(p) ==> match client_cert_of(req.security) {
            Some(ct) => match ct {
                CertificateType::Pem { cert: c, key: k } => p.client_cert matches Some(cp)
                    && cp.cert@ == c@ && cp.key@ == k@,
                CertificateType::Pfx { data, password } => p.client_cert matches Some(cp)
                    && pkcs12_pem_of(data@, password@) == Some((Some(cp.cert@), Some(cp.key@))),
            },
            None => p.client_cert is None,
        },
        r matches Ok(p) ==> p.ca_certs@ == ca_certs_of(req.security),
        r matches Ok(p) ==> opt_view(p.proxy_url) == (match req.proxy {
            Some(px) => Some(px.url@),
            None => None::<Seq<char>>,
        }) && p.proxy_auth_auto == (req.proxy is Some),
        r matches Err(e) ==> (e matches InterceptorError::Parse { .. } && (match req.content {
            Some(ContentType::Json { .. }) => true,
            _ => false,
        })) || (e matches InterceptorError::Certificate { .. } && (match client_cert_of(
            req.security,
        ) {
            Some(CertificateType::Pfx { data, password }) => !password_wf(password@)
                || !pfx_complete(data@, password@),
            _ => false,
        })),
{
    let method = req.method.as_str().to_owned();
    let url = req.url.clone();

    let mut lines: Vec<String> = match &req.headers {
        Some(h) => wire_header_lines(h),
        None => Vec::new(),
    };
    proof {
        assert(lines_view(lines@) == wire_lines_spec(base_headers_view(*req)));
    }

    let mut payload: Option<Payload> = None;
    let mut content_lines: Vec<String> = Vec::new();
    match &req.content {
        Some(c) => {
            match encode_content(c) {
                Ok(enc) => {
                    content_lines = wire_header_lines(&enc.headers);
                    payload = Some(enc.payload);
                },
                Err(e) => {
                    return Err(e);
                },
            }
        },
        None => {},
    }
    proof {
        assert(lines_view(content_lines@) == wire_lines_spec(content_headers_of(req.content)));
    }

    let ap: AuthPlan = match &req.auth {
        Some(a) => auth_plan(a),
        None => AuthPlan { credentials: None, digest: false, headers: Vec::new() },
    };
    let mut auth_lines = wire_header_lines(&ap.headers);
    proof {
        assert(lines_view(auth_lines@) == wire_lines_spec(auth_headers_of(req.auth)));
    }

    let ghost l0 = lines@;
    let ghost l1 = content_lines@;
    let ghost l2 = auth_lines@;
    lines.append(&mut content_lines);
    proof {
        assert(lines@ == l0 + l1);
        lemma_lines_view_concat(l0, l1);
    }
    lines.append(&mut auth_lines);
    proof {
        assert(lines@ == (l0 + l1) + l2);
        lemma_lines_view_concat(l0 + l1, l2);
    }

    let tls: TlsPlan = match security_plan(&req.security) {
        Ok(t) => t,
        Err(e) => {
            return Err(e);
        },
    };

    let proxy_url: Option<String> = match &req.proxy {
        Some(px) => Some(px.url.clone()),
        None => None,
    };
    let proxy_auth_auto = proxy_url.is_some();

    Ok(
        TransferPlan {
            method,
            url,
            header_lines: lines,
            payload,
            credentials: ap.credentials,
            digest_auth: ap.digest,
            verify_peer: tls.verify_peer,
            verify_host: tls.verify_host,
            client_cert: tls.client,
            ca_certs: tls.ca_certs,
            proxy_url,
            proxy_auth_auto,
        },
    )
}

} // verus!
