//! The two error surfaces of the engine: the rich taxonomy returned to the
//! caller, and the leaner pre-flight/supervision taxonomy.
use vstd::prelude::*;
use vstd::string::StringExecFns;

verus! {

/// Phase of the transfer during which a timeout was reported.
#[derive(Debug)]
pub enum TimeoutPhase {
    Connect,
    Tls,
    Response,
}

impl TimeoutPhase {
    /// Human-readable name of the phase.
    pub fn as_str(&self) -> (r: &'static str)
        ensures
            r@ == timeout_phase_str(*self),
    {
        match self {
            TimeoutPhase::Connect => "connection establishment",
            TimeoutPhase::Tls => "TLS handshake",
            TimeoutPhase::Response => "response waiting",
        }
    }
}

/// What `TimeoutPhase::as_str` returns for each phase.
pub open spec fn timeout_phase_str(p: TimeoutPhase) -> Seq<char> {
    match p {
        TimeoutPhase::Connect => "connection establishment"@,
        TimeoutPhase::Tls => "TLS handshake"@,
        TimeoutPhase::Response => "response waiting"@,
    }
}

/// Rich error taxonomy: every failure the engine reports to its caller is one
/// of these tagged values.
#[derive(Debug)]
pub enum InterceptorError {
    UnsupportedFeature { feature: String, message: String, interceptor: String },
    Network { message: String, cause: Option<String> },
    Timeout { message: String, phase: Option<TimeoutPhase> },
    Certificate { message: String, cause: Option<String> },
    Parse { message: String, cause: Option<String> },
    Abort { message: String },
}

/// The text describing an error, as shown to a user.
pub open spec fn error_text_spec(e: InterceptorError) -> Seq<char> {
    match e {
        InterceptorError::UnsupportedFeature { feature, message, interceptor } =>
            "Unsupported feature '"@ + feature@ + "' in interceptor '"@ + interceptor@ + "': "@
            + message@,
        InterceptorError::Network { message, .. } => "Network error: "@ + message@,
        InterceptorError::Timeout { phase, .. } => "Request timed out during "@ + (match phase {
            Some(p) => timeout_phase_str(p),
            None => "execution"@,
        }),
        InterceptorError::Certificate { message, .. } => "Certificate error: "@ + message@,
        InterceptorError::Parse { message, .. } => "Failed to parse response: "@ + message@,
        InterceptorError::Abort { message } => "Request aborted: "@ + message@,
    }
}

impl InterceptorError {
    /// The user-visible description of this error.
    pub fn message(&self) -> (r: String)
        ensures
            r@ == error_text_spec(*self),
    {
        match self {
            InterceptorError::UnsupportedFeature { feature, message, interceptor } => {
                let mut s = "Unsupported feature '".to_owned();
                s.append(feature.as_str());
                s.append("' in interceptor '");
                s.append(interceptor.as_str());
                s.append("': ");
                s.append(message.as_str());
                s
            },
            InterceptorError::Network { message, .. } => {
                let mut s = "Network error: ".to_owned();
                s.append(message.as_str());
                s
            },
            InterceptorError::Timeout { phase, .. } => {
                let mut s = "Request timed out during ".to_owned();
                match phase {
                    Some(p) => s.append(p.as_str()),
                    None => s.append("execution"),
                }
                s
            },
            InterceptorError::Certificate { message, .. } => {
                let mut s = "Certificate error: ".to_owned();
                s.append(message.as_str());
                s
            },
            InterceptorError::Parse { message, .. } => {
                let mut s = "Failed to parse response: ".to_owned();
                s.append(message.as_str());
                s
            },
            InterceptorError::Abort { message } => {
                let mut s = "Request aborted: ".to_owned();
                s.append(message.as_str());
                s
            },
        }
    }
}

/// Outcome of one engine call, as handed to the application shell.
pub enum InterceptorResult<R> {
    Success { response: R },
    Error { error: InterceptorError },
}

pub type RequestResult<T> = Result<T, InterceptorError>;

/// Leaner taxonomy used by the supervision layer: pre-flight validation
/// failures, worker failures, and cancellation.
#[derive(Debug)]
pub enum RelayError {
    InvalidMethod,
    InvalidUrl,
    InvalidHeaders,
    RequestRunError { message: String },
    RequestCancelled,
}

pub type RelayResult<T> = Result<T, RelayError>;

} // verus!
