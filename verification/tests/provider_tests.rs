use face_authd::camera::VideoDeviceInfo;
use face_authd::protocol::AuthenticateRequest;
use face_authd::provider::{
    camera_gate, enrollment_gate, stage_failure, AuthDecision, EnrollmentLookup, ProviderStage,
    StubProvider,
};

fn req(user: &str) -> AuthenticateRequest {
    AuthenticateRequest { version: 1, username: user.to_string(), service: None, tty: None, rhost: None }
}

fn dev(path: &str, fourcc: &str, capture: bool, streaming: bool) -> VideoDeviceInfo {
    VideoDeviceInfo {
        path: path.to_string(),
        symlinks: Vec::new(),
        driver: "uvcvideo".to_string(),
        card: "cam".to_string(),
        bus: "usb".to_string(),
        supports_capture: capture,
        supports_streaming: streaming,
        width: 640,
        height: 360,
        fourcc: fourcc.to_string(),
    }
}

#[test]
fn stub_provider_decisions() {
    let p = StubProvider;
    assert_eq!(
        p.decide(&req(""), Some("1".to_string())),
        AuthDecision::Error { message: "username must not be empty".to_string() }
    );
    for v in ["1", "true", "yes"] {
        assert_eq!(
            p.decide(&req("alice"), Some(v.to_string())),
            AuthDecision::Allow { reason: Some("stub provider: FACE_AUTHD_STUB_ALLOW is set".to_string()) }
        );
    }
    for v in [None, Some("0".to_string()), Some("TRUE".to_string()), Some("".to_string())] {
        assert_eq!(
            p.decide(&req("alice"), v),
            AuthDecision::Deny {
                reason: Some("stub provider in use; enroll first and restart daemon".to_string())
            }
        );
    }
}

#[test]
fn enrollment_gate_decisions() {
    assert_eq!(
        enrollment_gate("alice", EnrollmentLookup::Missing),
        Some(AuthDecision::Deny { reason: Some("no face enrollment for user 'alice'".to_string()) })
    );
    assert_eq!(
        enrollment_gate("alice", EnrollmentLookup::Failed("bad file".to_string())),
        Some(AuthDecision::Error { message: "failed to load enrollment: bad file".to_string() })
    );
    assert_eq!(
        enrollment_gate("alice", EnrollmentLookup::Loaded(0)),
        Some(AuthDecision::Deny {
            reason: Some("enrollment exists but contains no valid embeddings".to_string())
        })
    );
    assert_eq!(enrollment_gate("alice", EnrollmentLookup::Loaded(3)), None);
}

#[test]
fn camera_gate_decisions() {
    assert_eq!(
        camera_gate(Err("no sysfs".to_string()), None),
        Err(AuthDecision::Error { message: "camera discovery failed: no sysfs".to_string() })
    );
    assert_eq!(
        camera_gate(Ok(Vec::new()), None),
        Err(AuthDecision::Error { message: "no suitable IR camera found".to_string() })
    );
    let devices = vec![dev("/dev/video0", "MJPG", true, true), dev("/dev/video2", "GREY", true, true)];
    assert_eq!(camera_gate(Ok(devices.clone()), Some("/dev/video0")), Ok("/dev/video2".to_string()));
    let rgb_only = vec![dev("/dev/video0", "MJPG", true, true)];
    assert_eq!(camera_gate(Ok(rgb_only), None), Ok("/dev/video0".to_string()));
}

#[test]
fn stage_failures() {
    assert_eq!(
        stage_failure(ProviderStage::Emitter, "exit 1"),
        AuthDecision::Error { message: "emitter activation failed: exit 1".to_string() }
    );
    assert_eq!(
        stage_failure(ProviderStage::Recognition, "x"),
        AuthDecision::Error { message: "recognition failed: x".to_string() }
    );
    assert_eq!(
        stage_failure(ProviderStage::Worker, "y"),
        AuthDecision::Error { message: "task panicked: y".to_string() }
    );
}
