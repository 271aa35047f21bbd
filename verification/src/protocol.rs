//! Messages exchanged between the PAM module and the daemon over the Unix
//! socket, one JSON document per line.
use vstd::prelude::*;

verus! {

/// Where the daemon listens unless configured otherwise.
pub const DEFAULT_SOCKET_PATH: &'static str = "/run/face-authd.sock";

/// The protocol version that both sides must agree on.
pub const PROTOCOL_VERSION: u32 = 1;

/// A request sent by the PAM module.
#[derive(Debug, Clone, PartialEq, Eq)]
pub enum Request {
    Authenticate(AuthenticateRequest),
    Ping,
}

/// Who asks to be authenticated, and from where.
#[derive(Debug, Clone, PartialEq, Eq)]
pub struct AuthenticateRequest {
    pub version: u32,
    pub username: String,
    pub service: Option<String>,
    pub tty: Option<String>,
    pub rhost: Option<String>,
}

/// The daemon's answer.
#[derive(Debug, Clone, PartialEq, Eq)]
pub enum Response {
    Authenticate(AuthenticateResponse),
    Pong,
    Error(ErrorResponse),
}

/// The verdict on an authentication request.
#[derive(Debug, Clone, PartialEq, Eq)]
pub struct AuthenticateResponse {
    pub success: bool,
    pub reason: Option<String>,
}

/// A request that could not be served.
#[derive(Debug, Clone, PartialEq, Eq)]
pub struct ErrorResponse {
    pub code: String,
    pub message: String,
}

/// Frames one encoded message for the socket: the payload followed by a
/// newline, so that the peer can read it with a single line read.
pub fn frame_message(payload: Vec<u8>) -> (framed: Vec<u8>)
    ensures
        framed@ == payload@.push(10u8),
{
    let mut framed = payload;
    framed.push(10u8);
    framed
}

/// An error response with the given code and message.
pub fn error_response(code: &str, message: String) -> (r: Response)
    ensures
        r matches Response::Error(e) && e.code@ == code@ && e.message == message,
{
    Response::Error(ErrorResponse { code: crate::text::owned(code), message })
}

} // verus!
