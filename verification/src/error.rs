//! Errors of compose operations and the HTTP-style status code of each.

use vstd::prelude::*;
use crate::strs::push_str;
use crate::args::{decimal_i32, dec_int_text};

verus! {

/// Outcome of probing one container backend.
#[derive(Debug, Clone)]
pub struct BackendProbeResult {
    pub name: String,
    pub available: bool,
    pub reason: String,
    pub version: Option<String>,
    /// `"local"` or `"remote"`.
    pub mode: String,
}

/// An error reported as JSON: its message and status code.
#[derive(Debug, Clone)]
pub struct ErrorResponse {
    pub message: String,
    pub code: i32,
}

/// Errors of compose operations.
#[derive(Debug, Clone)]
pub enum ComposeError {
    NotFound(String),
    BackendError { code: i32, message: String },
    VerificationFailed { image: String, reason: String },
    /// The services whose dependencies could not all be started.
    DependencyCycle { services: Vec<String> },
    ServiceStartupFailed { service: String, error: String },
    InvalidConfig(String),
    NoBackendFound { probed: Vec<BackendProbeResult> },
    BackendNotAvailable { name: String, reason: String },
    PolicyViolation { node: String, reason: String },
    WorkloadRefResolutionFailed { node_id: String, projection: String, reason: String },
    Other(String),
    /// A compose file refers to something it does not define.
    ValidationError { message: String },
    /// A dependency cycle met while ordering services depth-first.
    CircularDependency { cycle: String },
    FileNotFound { path: String },
    ServiceNotFound { name: String },
    ExecError { service: String, message: String },
}

/// The status code reported for an error.
pub open spec fn spec_code(e: ComposeError) -> i32 {
    match e {
        ComposeError::NotFound(_) => 404,
        ComposeError::BackendError { code, .. } => code,
        ComposeError::VerificationFailed { .. } => 403,
        ComposeError::DependencyCycle { .. } => 422,
        ComposeError::ServiceStartupFailed { .. } => 500,
        ComposeError::InvalidConfig(_) => 400,
        ComposeError::NoBackendFound { .. } => 503,
        ComposeError::BackendNotAvailable { .. } => 503,
        ComposeError::PolicyViolation { .. } => 403,
        ComposeError::WorkloadRefResolutionFailed { .. } => 500,
        ComposeError::Other(_) => 500,
        ComposeError::ValidationError { .. } => 400,
        ComposeError::CircularDependency { .. } => 422,
        ComposeError::FileNotFound { .. } => 404,
        ComposeError::ServiceNotFound { .. } => 404,
        ComposeError::ExecError { .. } => 500,
    }
}

impl ComposeError {
    /// The status code put in this error's JSON report.
    pub fn code(&self) -> (c: i32)
        ensures
            c == spec_code(*self),
    {
        match self {
            ComposeError::NotFound(_) => 404,
            ComposeError::BackendError { code, .. } => *code,
            ComposeError::VerificationFailed { .. } => 403,
            ComposeError::DependencyCycle { .. } => 422,
            ComposeError::ServiceStartupFailed { .. } => 500,
            ComposeError::InvalidConfig(_) => 400,
            ComposeError::NoBackendFound { .. } => 503,
            ComposeError::BackendNotAvailable { .. } => 503,
            ComposeError::PolicyViolation { .. } => 403,
            ComposeError::WorkloadRefResolutionFailed { .. } => 500,
            ComposeError::Other(_) => 500,
            ComposeError::ValidationError { .. } => 400,
            ComposeError::CircularDependency { .. } => 422,
            ComposeError::FileNotFound { .. } => 404,
            ComposeError::ServiceNotFound { .. } => 404,
            ComposeError::ExecError { .. } => 500,
        }
    }
}


/// `Debug` rendering of the probed backends; the contract says nothing of it.
#[verifier::external_body]
fn probed_text(probed: &Vec<BackendProbeResult>) -> String {
    format!("{:?}", probed)
}

/// `a` followed by `b`.
fn cat2(a: &str, b: &str) -> (r: String)
    ensures
        r@ == a@ + b@,
{
    let mut s = a.to_owned();
    push_str(&mut s, b);
    s
}

/// `a`, `b`, `c`, `d` in a row.
fn cat4(a: &str, b: &str, c: &str, d: &str) -> (r: String)
    ensures
        r@ == a@ + b@ + c@ + d@,
{
    let mut s = a.to_owned();
    push_str(&mut s, b);
    push_str(&mut s, c);
    push_str(&mut s, d);
    s
}

/// The message of an error, for every variant but `NoBackendFound`.
pub open spec fn spec_message(e: ComposeError) -> Seq<char> {
    match e {
        ComposeError::NotFound(s) => "Not found: "@ + s@,
        ComposeError::BackendError { code, message } => "Backend error (code "@ + dec_int_text(code as int)
            + "): "@ + message@,
        ComposeError::VerificationFailed { image, reason } => "Verification failed for image "@ + image@
            + ": "@ + reason@,
        ComposeError::DependencyCycle { services } => "Dependency cycle detected: "@ + crate::args::join_with(
            crate::args::views(services@),
            ", "@,
        ),
        ComposeError::ServiceStartupFailed { service, error } => "Service "@ + service@ + " failed to start: "@
            + error@,
        ComposeError::InvalidConfig(s) => "Invalid configuration: "@ + s@,
        ComposeError::NoBackendFound { .. } => "No container backend found. Probed: "@,
        ComposeError::BackendNotAvailable { name, reason } => "Backend "@ + name@ + " is not available: "@
            + reason@,
        ComposeError::PolicyViolation { node, reason } => "Policy violation for node "@ + node@ + ": "@ + reason@,
        ComposeError::WorkloadRefResolutionFailed { node_id, projection, reason } =>
            "Workload ref resolution failed for node "@ + node_id@ + ", projection "@ + projection@ + ": "@
            + reason@,
        ComposeError::Other(s) => "Other error: "@ + s@,
        ComposeError::ValidationError { message } => "Validation error: "@ + message@,
        ComposeError::CircularDependency { cycle } => "Circular dependency detected: "@ + cycle@,
        ComposeError::FileNotFound { path } => "File not found: "@ + path@,
        ComposeError::ServiceNotFound { name } => "Service not found: "@ + name@,
        ComposeError::ExecError { service, message } => "Error in service "@ + service@ + ": "@ + message@,
    }
}

impl ComposeError {
    /// The human-readable message of this error. For `NoBackendFound` the
    /// probed backends follow the fixed prefix, in their debug rendering.
    pub fn to_string(&self) -> (r: String)
        ensures
            match *self {
                ComposeError::NoBackendFound { .. } => spec_message(*self).is_prefix_of(r@),
                _ => r@ == spec_message(*self),
            },
    {
        match self {
            ComposeError::NotFound(s) => cat2("Not found: ", s.as_str()),
            ComposeError::BackendError { code, message } => {
                let c = decimal_i32(*code);
                cat4("Backend error (code ", c.as_str(), "): ", message.as_str())
            },
            ComposeError::VerificationFailed { image, reason } => cat4(
                "Verification failed for image ",
                image.as_str(),
                ": ",
                reason.as_str(),
            ),
            ComposeError::DependencyCycle { services } => {
                let j = crate::args::join(services, ", ");
                cat2("Dependency cycle detected: ", j.as_str())
            },
            ComposeError::ServiceStartupFailed { service, error } => cat4(
                "Service ",
                service.as_str(),
                " failed to start: ",
                error.as_str(),
            ),
            ComposeError::InvalidConfig(s) => cat2("Invalid configuration: ", s.as_str()),
            ComposeError::NoBackendFound { probed } => {
                let t = probed_text(probed);
                let r = cat2("No container backend found. Probed: ", t.as_str());
                proof {
                    assert(r@.subrange(0, spec_message(*self).len() as int) =~= spec_message(*self));
                    assert(spec_message(*self).is_prefix_of(r@));
                }
                r
            },
            ComposeError::BackendNotAvailable { name, reason } => cat4(
                "Backend ",
                name.as_str(),
                " is not available: ",
                reason.as_str(),
            ),
            ComposeError::PolicyViolation { node, reason } => cat4(
                "Policy violation for node ",
                node.as_str(),
                ": ",
                reason.as_str(),
            ),
            ComposeError::WorkloadRefResolutionFailed { node_id, projection, reason } => {
                let a = cat4("Workload ref resolution failed for node ", node_id.as_str(), ", projection ", projection.as_str());
                let b = cat2(a.as_str(), ": ");
                cat2(b.as_str(), reason.as_str())
            },
            ComposeError::Other(s) => cat2("Other error: ", s.as_str()),
            ComposeError::ValidationError { message } => cat2("Validation error: ", message.as_str()),
            ComposeError::CircularDependency { cycle } => cat2("Circular dependency detected: ", cycle.as_str()),
            ComposeError::FileNotFound { path } => cat2("File not found: ", path.as_str()),
            ComposeError::ServiceNotFound { name } => cat2("Service not found: ", name.as_str()),
            ComposeError::ExecError { service, message } => cat4(
                "Error in service ",
                service.as_str(),
                ": ",
                message.as_str(),
            ),
        }
    }
}

} // verus!
