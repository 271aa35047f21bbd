//! The daemon's side of one client connection: what it answers to each
//! request line, and how a provider's decision becomes a response.
use vstd::prelude::*;
use crate::protocol::{
    error_response, AuthenticateRequest, AuthenticateResponse, ErrorResponse, Request, Response,
    PROTOCOL_VERSION,
};
use crate::provider::AuthDecision;
use crate::text::{concat, decimal, u64_to_decimal};

verus! {

/// What the daemon does next with a client: answer at once, or ask the
/// provider about an authentication request first.
#[derive(Debug, Clone, PartialEq, Eq)]
pub enum ClientStep {
    Reply(Response),
    Consult(AuthenticateRequest),
}

/// The message of the error answered to a request of another protocol version.
pub open spec fn version_mismatch_message(version: u32) -> Seq<char> {
    "expected version "@ + decimal(PROTOCOL_VERSION as nat) + ", got "@ + decimal(version as nat)
}

/// What the daemon does with a request line: `parsed` is the request, or the
/// reason it could not be parsed.
pub open spec fn client_step_spec(parsed: Result<Request, String>, step: ClientStep) -> bool {
    match parsed {
        Ok(Request::Ping) => step == ClientStep::Reply(Response::Pong),
        Ok(Request::Authenticate(req)) => if req.version == PROTOCOL_VERSION {
            step == ClientStep::Consult(req)
        } else {
            step matches ClientStep::Reply(Response::Error(e)) && e.code@
                == "protocol_version_mismatch"@ && e.message@ == version_mismatch_message(
                req.version,
            )
        },
        Err(reason) => step matches ClientStep::Reply(Response::Error(e)) && e.code@
            == "bad_request"@ && e.message@ == reason@,
    }
}

/// The first step for an authentication request: requests of another
/// protocol version are refused without asking the provider.
pub fn authenticate_step(req: AuthenticateRequest) -> (step: ClientStep)
    ensures
        client_step_spec(Ok(Request::Authenticate(req)), step),
{
    if req.version != PROTOCOL_VERSION {
        let message = concat(
            concat(
                concat("expected version ", u64_to_decimal(PROTOCOL_VERSION as u64).as_str()).as_str(),
                ", got ",
            ).as_str(),
            u64_to_decimal(req.version as u64).as_str(),
        );
        return ClientStep::Reply(error_response("protocol_version_mismatch", message));
    }
    ClientStep::Consult(req)
}

/// What the daemon does with one request line.
pub fn handle_request(parsed: Result<Request, String>) -> (step: ClientStep)
    ensures
        client_step_spec(parsed, step),
{
    match parsed {
        Ok(Request::Ping) => ClientStep::Reply(Response::Pong),
        Ok(Request::Authenticate(req)) => authenticate_step(req),
        Err(reason) => ClientStep::Reply(error_response("bad_request", reason)),
    }
}

/// The response for a provider's decision: allowed and denied attempts are
/// answered as authentication results, failures as errors.
pub open spec fn decision_response(decision: AuthDecision, r: Response) -> bool {
    match decision {
        AuthDecision::Allow { reason } => r == Response::Authenticate(
            AuthenticateResponse { success: true, reason },
        ),
        AuthDecision::Deny { reason } => r == Response::Authenticate(
            AuthenticateResponse { success: false, reason },
        ),
        AuthDecision::Error { message } => r matches Response::Error(e) && e.code@
            == "provider_error"@ && e.message == message,
    }
}

/// The response for a provider's decision.
pub fn response_for_decision(decision: AuthDecision) -> (r: Response)
    ensures
        decision_response(decision, r),
{
    match decision {
        AuthDecision::Allow { reason } => Response::Authenticate(
            AuthenticateResponse { success: true, reason },
        ),
        AuthDecision::Deny { reason } => Response::Authenticate(
            AuthenticateResponse { success: false, reason },
        ),
        AuthDecision::Error { message } => error_response("provider_error", message),
    }
}

} // verus!
