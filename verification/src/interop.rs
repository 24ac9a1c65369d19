//! The structured request and response model exchanged with the application
//! shell. Mappings that may repeat a name are association lists, so that the
//! wire order of repeated names is part of the model.
use vstd::prelude::*;

use crate::error::InterceptorError;

verus! {

/// HTTP request method.
pub enum Method {
    Get,
    Post,
    Put,
    Delete,
    Patch,
    Head,
    Options,
}

/// The wire name of each method.
pub open spec fn method_str(m: Method) -> Seq<char> {
    match m {
        Method::Get => "GET"@,
        Method::Post => "POST"@,
        Method::Put => "PUT"@,
        Method::Delete => "DELETE"@,
        Method::Patch => "PATCH"@,
        Method::Head => "HEAD"@,
        Method::Options => "OPTIONS"@,
    }
}

impl Method {
    /// The method name as written on the request line.
    pub fn as_str(&self) -> (r: &'static str)
        ensures
            r@ == method_str(*self),
    {
        match self {
            Method::Get => "GET",
            Method::Post => "POST",
            Method::Put => "PUT",
            Method::Delete => "DELETE",
            Method::Patch => "PATCH",
            Method::Head => "HEAD",
            Method::Options => "OPTIONS",
        }
    }
}

/// Body payload of a request, or decoded body of a response. Exactly one
/// variant is active; an absent body is `Option::<ContentType>::None` at the
/// request level.
pub enum ContentType {
    Text { content: String },
    Json { content: serde_json::Value },
    Form { content: Vec<(String, Vec<u8>)> },
    UrlEncoded { content: Vec<(String, String)> },
    Binary { content: Vec<u8>, media_type: Option<String>, filename: Option<String> },
}

/// Digest challenge algorithm accepted by the model; pass-through advisory.
pub enum DigestAlgorithm {
    Md5,
    Sha256,
    Sha512,
}

/// Digest quality-of-protection accepted by the model; pass-through advisory.
pub enum DigestQop {
    Auth,
    AuthInt,
}

/// Authentication specification of a request.
pub enum AuthType {
    NoAuth,
    Basic { username: String, password: String },
    Bearer { token: String },
    Digest {
        username: String,
        password: String,
        realm: Option<String>,
        nonce: Option<String>,
        opaque: Option<String>,
        algorithm: Option<DigestAlgorithm>,
        qop: Option<DigestQop>,
    },
}

/// Client certificate material: ready-made PEM blobs, or a PKCS#12 container
/// with its password.
pub enum CertificateType {
    Pem { cert: Vec<u8>, key: Vec<u8> },
    Pfx { data: Vec<u8>, password: String },
}

/// Certificate trust material of one request.
pub struct SecurityCertificates {
    pub client: Option<CertificateType>,
    pub ca: Option<Vec<Vec<u8>>>,
}

/// TLS policy of one request.
pub struct Security {
    pub certificates: Option<SecurityCertificates>,
    pub validate_certificates: bool,
    pub verify_host: bool,
}

/// Proxy routing of one request.
pub struct Proxy {
    pub url: String,
}

/// A fully specified outbound request.
pub struct Request {
    pub id: i64,
    pub url: String,
    pub method: Method,
    pub headers: Option<Vec<(String, Vec<String>)>>,
    pub params: Option<Vec<(String, String)>>,
    pub content: Option<ContentType>,
    pub auth: Option<AuthType>,
    pub security: Option<Security>,
    pub proxy: Option<Proxy>,
}

/// Millisecond epoch offsets captured immediately around the transfer.
pub struct TimingInfo {
    pub start: u64,
    pub end: u64,
}

/// Byte counts of the received response.
pub struct SizeInfo {
    pub headers: u64,
    pub body: u64,
    pub total: u64,
}

/// Timing and size metadata of a response.
pub struct ResponseMeta {
    pub timing: TimingInfo,
    pub size: SizeInfo,
}

/// A fully specified response handed back to the caller.
pub struct Response {
    pub id: i64,
    pub status: u16,
    pub status_text: String,
    pub headers: Vec<(String, Vec<String>)>,
    pub content: ContentType,
    pub meta: ResponseMeta,
}

/// Outcome of one engine call, as handed to the application shell.
pub enum ExecuteResponse {
    Success { response: Response },
    Error { error: InterceptorError },
}

} // verus!
