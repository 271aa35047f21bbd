//! The PAM module's decisions: the request it sends for the user being
//! authenticated, and the PAM result for the daemon's answer.
use vstd::prelude::*;
use crate::protocol::{AuthenticateRequest, AuthenticateResponse, Response, PROTOCOL_VERSION};

verus! {

/// The PAM return codes that the module gives.
#[derive(Debug, Clone, Copy, PartialEq, Eq, Structural)]
pub enum PamCode {
    Success,
    AuthErr,
    SystemErr,
    ServiceErr,
    UserUnknown,
    ConvErr,
}

/// The request that the module sends for a user, with the PAM items it
/// could read.
pub fn authenticate_request(
    username: String,
    service: Option<String>,
    tty: Option<String>,
    rhost: Option<String>,
) -> (r: AuthenticateRequest)
    ensures
        r == (AuthenticateRequest { version: PROTOCOL_VERSION, username, service, tty, rhost }),
{
    AuthenticateRequest { version: PROTOCOL_VERSION, username, service, tty, rhost }
}

/// The daemon's verdict, or the PAM code for an answer that holds none:
/// `reply` is `None` when the answer could not be parsed.
pub open spec fn reply_outcome_spec(reply: Option<Response>) -> Result<AuthenticateResponse, PamCode> {
    match reply {
        Some(Response::Authenticate(resp)) => Ok(resp),
        Some(Response::Error(_)) => Err(PamCode::AuthErr),
        Some(Response::Pong) => Err(PamCode::SystemErr),
        None => Err(PamCode::SystemErr),
    }
}

/// The daemon's verdict in its answer, or the PAM code to give instead.
pub fn reply_outcome(reply: Option<Response>) -> (r: Result<AuthenticateResponse, PamCode>)
    ensures
        r == reply_outcome_spec(reply),
{
    match reply {
        Some(Response::Authenticate(resp)) => Ok(resp),
        Some(Response::Error(_)) => Err(PamCode::AuthErr),
        Some(Response::Pong) => Err(PamCode::SystemErr),
        None => Err(PamCode::SystemErr),
    }
}

/// The PAM code for the outcome of asking the daemon.
pub open spec fn outcome_code(outcome: Result<AuthenticateResponse, PamCode>) -> PamCode {
    match outcome {
        Ok(resp) => if resp.success {
            PamCode::Success
        } else {
            PamCode::AuthErr
        },
        Err(code) => code,
    }
}

/// The PAM code that authentication returns for the outcome of asking the
/// daemon: success exactly when the daemon's verdict is a success.
pub fn pam_authenticate_result(outcome: Result<AuthenticateResponse, PamCode>) -> (r: PamCode)
    ensures
        r == outcome_code(outcome),
{
    match outcome {
        Ok(resp) => if resp.success {
            PamCode::Success
        } else {
            PamCode::AuthErr
        },
        Err(code) => code,
    }
}

/// How showing an informational message through the PAM conversation went.
#[derive(Debug, Clone, Copy, PartialEq, Eq, Structural)]
pub enum ConversationOutcome {
    /// The handle has no conversation, or the conversation no function.
    Unavailable,
    /// The message holds a NUL byte and cannot be passed as a C string.
    MessageHasNul,
    /// The conversation function ran and reported success or not.
    Ran { succeeded: bool },
}

/// The PAM code for showing an informational message: a missing
/// conversation is no failure; a failed conversation is `ConvErr`.
pub fn text_info_result(outcome: ConversationOutcome) -> (r: PamCode)
    ensures
        r == (match outcome {
            ConversationOutcome::Unavailable => PamCode::Success,
            ConversationOutcome::MessageHasNul => PamCode::SystemErr,
            ConversationOutcome::Ran { succeeded } => if succeeded {
                PamCode::Success
            } else {
                PamCode::ConvErr
            },
        }),
{
    match outcome {
        ConversationOutcome::Unavailable => PamCode::Success,
        ConversationOutcome::MessageHasNul => PamCode::SystemErr,
        ConversationOutcome::Ran { succeeded } => if succeeded {
            PamCode::Success
        } else {
            PamCode::ConvErr
        },
    }
}

} // verus!
