//! What an authentication provider decides, and the decisions that do not
//! depend on a face match: the stub provider, and the checks that the real
//! provider makes before it looks at the camera.
use vstd::prelude::*;
use crate::camera::{select_ir_device, ir_device_choice, VideoDeviceInfo};
use crate::protocol::AuthenticateRequest;
use crate::text::{concat, owned, str_eq};

verus! {

/// The outcome of an authentication attempt.
#[derive(Debug, Clone, PartialEq, Eq)]
pub enum AuthDecision {
    Allow { reason: Option<String> },
    Deny { reason: Option<String> },
    Error { message: String },
}

/// A provider for testing without recognition models: it allows only when the
/// operator says so.
#[derive(Debug, Clone, Copy, Default)]
pub struct StubProvider;

/// The values of `FACE_AUTHD_STUB_ALLOW` that make the stub provider allow.
pub open spec fn stub_allows(setting: Option<String>) -> bool {
    match setting {
        Some(v) => v@ == "1"@ || v@ == "true"@ || v@ == "yes"@,
        None => false,
    }
}

impl StubProvider {
    /// The stub provider's decision on `request`, given the value of
    /// `FACE_AUTHD_STUB_ALLOW` (`None` when unset or not Unicode).
    pub fn decide(&self, request: &AuthenticateRequest, allow_setting: Option<String>) -> (d:
        AuthDecision)
        ensures
            request.username@.len() == 0 ==> (d matches AuthDecision::Error { message }
                && message@ == "username must not be empty"@),
            request.username@.len() > 0 && stub_allows(allow_setting) ==> (d matches AuthDecision::Allow {
                reason: Some(r),
            } && r@ == "stub provider: FACE_AUTHD_STUB_ALLOW is set"@),
            request.username@.len() > 0 && !stub_allows(allow_setting) ==> (d matches AuthDecision::Deny {
                reason: Some(r),
            } && r@ == "stub provider in use; enroll first and restart daemon"@),
    {
        if request.username.as_str().is_empty() {
            return AuthDecision::Error { message: owned("username must not be empty") };
        }
        let allowed = match &allow_setting {
            Some(v) => str_eq(v.as_str(), "1") || str_eq(v.as_str(), "true") || str_eq(
                v.as_str(),
                "yes",
            ),
            None => false,
        };
        if allowed {
            AuthDecision::Allow { reason: Some(owned("stub provider: FACE_AUTHD_STUB_ALLOW is set")) }
        } else {
            AuthDecision::Deny {
                reason: Some(owned("stub provider in use; enroll first and restart daemon")),
            }
        }
    }
}

/// What loading a user's enrollment gave.
#[derive(Debug, Clone, PartialEq, Eq)]
pub enum EnrollmentLookup {
    /// No enrollment is stored for the user.
    Missing,
    /// Reading or decrypting the enrollment failed, with this message.
    Failed(String),
    /// The enrollment holds this many usable 128-dimensional embeddings.
    Loaded(usize),
}

/// The decision that ends an attempt before the camera is used, if any:
/// no enrollment, an enrollment that could not be read, or one without
/// usable embeddings.
pub fn enrollment_gate(username: &str, lookup: EnrollmentLookup) -> (d: Option<AuthDecision>)
    ensures
        match lookup {
            EnrollmentLookup::Missing => d matches Some(AuthDecision::Deny { reason: Some(r) })
                && r@ == "no face enrollment for user '"@ + username@ + "'"@,
            EnrollmentLookup::Failed(msg) => d matches Some(AuthDecision::Error { message })
                && message@ == "failed to load enrollment: "@ + msg@,
            EnrollmentLookup::Loaded(n) => if n == 0 {
                d matches Some(AuthDecision::Deny { reason: Some(r) })
                    && r@ == "enrollment exists but contains no valid embeddings"@
            } else {
                d is None
            },
        },
{
    match lookup {
        EnrollmentLookup::Missing => {
            let r = concat(concat("no face enrollment for user '", username).as_str(), "'");
            Some(AuthDecision::Deny { reason: Some(r) })
        },
        EnrollmentLookup::Failed(msg) => {
            Some(AuthDecision::Error { message: concat("failed to load enrollment: ", msg.as_str()) })
        },
        EnrollmentLookup::Loaded(n) => {
            if n == 0 {
                Some(
                    AuthDecision::Deny {
                        reason: Some(owned("enrollment exists but contains no valid embeddings")),
                    },
                )
            } else {
                None
            }
        },
    }
}

/// The camera to use for an attempt, or the decision that ends it: camera
/// discovery failed, or no device is suitable.
pub fn camera_gate(devices: Result<Vec<VideoDeviceInfo>, String>, preferred: Option<&str>) -> (r:
    Result<String, AuthDecision>)
    ensures
        match devices {
            Err(msg) => r matches Err(AuthDecision::Error { message })
                && message@ == "camera discovery failed: "@ + msg@,
            Ok(devs) => match ir_device_choice(devs@, preferred) {
                Some(i) => r matches Ok(path) && path@ == devs@[i].path@,
                None => r matches Err(AuthDecision::Error { message })
                    && message@ == "no suitable IR camera found"@,
            },
        },
{
    match devices {
        Err(msg) => Err(
            AuthDecision::Error { message: concat("camera discovery failed: ", msg.as_str()) },
        ),
        Ok(devs) => match select_ir_device(devs.as_slice(), preferred) {
            Some(d) => Ok(d.path),
            None => Err(AuthDecision::Error { message: owned("no suitable IR camera found") }),
        },
    }
}

/// A stage of an authentication attempt that can fail after the camera was
/// chosen.
#[derive(Debug, Clone, Copy, PartialEq, Eq)]
pub enum ProviderStage {
    /// Switching on the IR emitter.
    Emitter,
    /// Capturing frames and matching faces.
    Recognition,
    /// The worker that ran the capture stopped abnormally.
    Worker,
}

pub open spec fn stage_prefix(stage: ProviderStage) -> Seq<char> {
    match stage {
        ProviderStage::Emitter => "emitter activation failed: "@,
        ProviderStage::Recognition => "recognition failed: "@,
        ProviderStage::Worker => "task panicked: "@,
    }
}

/// The decision when `stage` failed with `detail`.
pub fn stage_failure(stage: ProviderStage, detail: &str) -> (d: AuthDecision)
    ensures
        d matches AuthDecision::Error { message } && message@ == stage_prefix(stage) + detail@,
{
    let prefix = match stage {
        ProviderStage::Emitter => "emitter activation failed: ",
        ProviderStage::Recognition => "recognition failed: ",
        ProviderStage::Worker => "task panicked: ",
    };
    AuthDecision::Error { message: concat(prefix, detail) }
}

} // verus!
