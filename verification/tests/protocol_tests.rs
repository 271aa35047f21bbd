use face_authd::daemon::{handle_request, response_for_decision, ClientStep};
use face_authd::pam::{
    authenticate_request, pam_authenticate_result, reply_outcome, text_info_result,
    ConversationOutcome, PamCode,
};
use face_authd::protocol::{
    frame_message, AuthenticateRequest, AuthenticateResponse, ErrorResponse, Request, Response,
    PROTOCOL_VERSION,
};
use face_authd::provider::AuthDecision;

fn request(version: u32, user: &str) -> AuthenticateRequest {
    AuthenticateRequest {
        version,
        username: user.to_string(),
        service: Some("sudo".to_string()),
        tty: None,
        rhost: None,
    }
}

#[test]
fn framing_appends_one_newline() {
    assert_eq!(frame_message(b"{\"type\":\"ping\"}".to_vec()), b"{\"type\":\"ping\"}\n".to_vec());
    assert_eq!(frame_message(Vec::new()), b"\n".to_vec());
}

#[test]
fn ping_is_answered_with_pong() {
    assert_eq!(handle_request(Ok(Request::Ping)), ClientStep::Reply(Response::Pong));
}

#[test]
fn current_version_is_passed_to_provider() {
    let req = request(PROTOCOL_VERSION, "alice");
    assert_eq!(
        handle_request(Ok(Request::Authenticate(req.clone()))),
        ClientStep::Consult(req)
    );
}

#[test]
fn other_version_is_refused() {
    let step = handle_request(Ok(Request::Authenticate(request(7, "alice"))));
    assert_eq!(
        step,
        ClientStep::Reply(Response::Error(ErrorResponse {
            code: "protocol_version_mismatch".to_string(),
            message: "expected version 1, got 7".to_string(),
        }))
    );
}

#[test]
fn unparsable_request_is_bad_request() {
    let step = handle_request(Err("expected value at line 1 column 1".to_string()));
    assert_eq!(
        step,
        ClientStep::Reply(Response::Error(ErrorResponse {
            code: "bad_request".to_string(),
            message: "expected value at line 1 column 1".to_string(),
        }))
    );
}

#[test]
fn decisions_become_responses() {
    assert_eq!(
        response_for_decision(AuthDecision::Allow { reason: Some("ok".to_string()) }),
        Response::Authenticate(AuthenticateResponse { success: true, reason: Some("ok".to_string()) })
    );
    assert_eq!(
        response_for_decision(AuthDecision::Deny { reason: None }),
        Response::Authenticate(AuthenticateResponse { success: false, reason: None })
    );
    assert_eq!(
        response_for_decision(AuthDecision::Error { message: "boom".to_string() }),
        Response::Error(ErrorResponse { code: "provider_error".to_string(), message: "boom".to_string() })
    );
}

#[test]
fn pam_codes_for_replies() {
    let ok = Response::Authenticate(AuthenticateResponse { success: true, reason: None });
    let no = Response::Authenticate(AuthenticateResponse { success: false, reason: None });
    let err = Response::Error(ErrorResponse { code: "x".to_string(), message: "y".to_string() });
    assert_eq!(pam_authenticate_result(reply_outcome(Some(ok))), PamCode::Success);
    assert_eq!(pam_authenticate_result(reply_outcome(Some(no))), PamCode::AuthErr);
    assert_eq!(pam_authenticate_result(reply_outcome(Some(err))), PamCode::AuthErr);
    assert_eq!(pam_authenticate_result(reply_outcome(Some(Response::Pong))), PamCode::SystemErr);
    assert_eq!(pam_authenticate_result(reply_outcome(None)), PamCode::SystemErr);
    assert_eq!(pam_authenticate_result(Err(PamCode::ServiceErr)), PamCode::ServiceErr);
}

#[test]
fn end_to_end_allow_and_deny() {
    let allow = response_for_decision(AuthDecision::Allow { reason: None });
    assert_eq!(pam_authenticate_result(reply_outcome(Some(allow))), PamCode::Success);
    let deny = response_for_decision(AuthDecision::Deny { reason: None });
    assert_eq!(pam_authenticate_result(reply_outcome(Some(deny))), PamCode::AuthErr);
    let fail = response_for_decision(AuthDecision::Error { message: "m".to_string() });
    assert_eq!(pam_authenticate_result(reply_outcome(Some(fail))), PamCode::AuthErr);
    match handle_request(Ok(Request::Authenticate(request(2, "bob")))) {
        ClientStep::Reply(r) => {
            assert_eq!(pam_authenticate_result(reply_outcome(Some(r))), PamCode::AuthErr)
        }
        other => panic!("unexpected step {:?}", other),
    }
}

#[test]
fn request_carries_current_version() {
    let r = authenticate_request("carol".to_string(), Some("login".to_string()), Some("tty1".to_string()), None);
    assert_eq!(r.version, 1);
    assert_eq!(r.username, "carol");
    assert_eq!(r.service.as_deref(), Some("login"));
    assert_eq!(r.tty.as_deref(), Some("tty1"));
    assert_eq!(r.rhost, None);
}

#[test]
fn text_info_results() {
    assert_eq!(text_info_result(ConversationOutcome::Unavailable), PamCode::Success);
    assert_eq!(text_info_result(ConversationOutcome::MessageHasNul), PamCode::SystemErr);
    assert_eq!(text_info_result(ConversationOutcome::Ran { succeeded: true }), PamCode::Success);
    assert_eq!(text_info_result(ConversationOutcome::Ran { succeeded: false }), PamCode::ConvErr);
}
