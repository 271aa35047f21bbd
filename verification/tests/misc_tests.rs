use face_authd::cli::{
    classify_usb_interface, control_assignment, default_target_user, enroll_verify_plan, format_device_line,
    is_usb_device_dir, is_usb_interface_dir, parse_fourcc, setup_plan, EnrollCollector,
    FrameBudget,
};
use face_authd::camera::{StreamControl, VideoDeviceInfo};
use face_authd::emitter::{emitter_from_settings, emitter_outcome, split_whitespace, EmitterMode, ExternalEmitterCommand};
use face_authd::models::{
    checksum_required, model_dir, model_path, model_payload, rec_model, sp5_model,
    verify_sha256_bytes, ModelError, ModelSpec,
};
use face_authd::text::{
    is_whitespace_char,
    i64_to_decimal, lines_of, parse_i64, parse_u32, parse_usize, sort_texts, split_once_char,
    str_before, trim_str, u64_to_decimal,
};
use face_authd::vision::{luma_counts, LumaCounts};

#[test]
fn fourcc_option() {
    assert_eq!(parse_fourcc("GREY").unwrap(), *b"GREY");
    assert_eq!(parse_fourcc("MJP").unwrap_err().message, "fourcc must be exactly 4 ASCII bytes");
    assert_eq!(parse_fourcc("é12").unwrap(), [0xC3, 0xA9, b'1', b'2']);
}

#[test]
fn device_lines() {
    let d = VideoDeviceInfo {
        path: "/dev/video2".to_string(),
        symlinks: vec![],
        driver: "uvcvideo".to_string(),
        card: "IR Camera".to_string(),
        bus: "usb-1".to_string(),
        supports_capture: true,
        supports_streaming: false,
        width: 340,
        height: 340,
        fourcc: "GREY".to_string(),
    };
    assert_eq!(
        format_device_line(&d, None),
        "/dev/video2 card=\"IR Camera\" driver=\"uvcvideo\" bus=\"usb-1\" format=GREY size=340x340 mode=capture/no-streaming by-path=-"
    );
    assert!(format_device_line(&d, Some("/dev/v4l/by-path/x")).ends_with(" by-path=/dev/v4l/by-path/x"));
}

#[test]
fn target_user() {
    assert_eq!(default_target_user(true, Some("alice".to_string()), Some("root".to_string())), "alice");
    assert_eq!(default_target_user(true, Some("  ".to_string()), Some("root".to_string())), "root");
    assert_eq!(default_target_user(false, Some("alice".to_string()), Some("bob".to_string())), "bob");
    assert_eq!(default_target_user(false, None, None), "unknown");
}

#[test]
fn usb_interfaces() {
    assert_eq!(classify_usb_interface("0e", "01"), "VideoStreaming");
    assert_eq!(classify_usb_interface("0e", "02"), "VideoControl");
    assert_eq!(classify_usb_interface("fe", "01"), "ApplicationSpecific");
    assert_eq!(classify_usb_interface("ff", "00"), "Unknown");
    assert!(is_usb_device_dir("3-8"));
    assert!(!is_usb_device_dir("3-8:1.0"));
    assert!(!is_usb_device_dir("2-1"));
    assert!(is_usb_interface_dir("3-8:1.2"));
    assert!(!is_usb_interface_dir("3-8"));
    assert!(!is_usb_interface_dir("3"));
}

#[test]
fn frame_budget() {
    let mut b = FrameBudget::new(2);
    assert_eq!(b.take_frame(), StreamControl::Continue);
    assert_eq!(b.take_frame(), StreamControl::Continue);
    assert_eq!(b.take_frame(), StreamControl::Stop);
    assert_eq!(b.used, 2);
    let mut none = FrameBudget::new(0);
    assert_eq!(none.take_frame(), StreamControl::Stop);
}

#[test]
fn enroll_collector() {
    let mut c = EnrollCollector::new(2);
    assert_eq!(c.max_attempts, 20);
    assert_eq!(c.before_frame(), StreamControl::Continue);
    assert_eq!(c.after_frame(false), StreamControl::Continue);
    assert_eq!(c.before_frame(), StreamControl::Continue);
    assert_eq!(c.after_frame(true), StreamControl::Continue);
    assert_eq!(c.before_frame(), StreamControl::Continue);
    assert_eq!(c.after_frame(true), StreamControl::Stop);
    assert!(c.complete());
    assert_eq!(c.before_frame(), StreamControl::Stop);
    let mut give_up = EnrollCollector::new(1);
    for _ in 0..10 {
        assert_eq!(give_up.before_frame(), StreamControl::Continue);
        assert_eq!(give_up.after_frame(false), StreamControl::Continue);
    }
    assert_eq!(give_up.before_frame(), StreamControl::Stop);
    assert!(!give_up.complete());
    assert_eq!(give_up.attempts, 10);
}

#[test]
fn plans() {
    assert_eq!(setup_plan("alice", None), vec!["--user", "alice", "--replace"]);
    assert_eq!(
        setup_plan("alice", Some("/dev/video2")),
        vec!["--user", "alice", "--replace", "--device", "/dev/video2"]
    );
    let (e, v) = enroll_verify_plan("bob", Some("/dev/video2"), 5, 10, "0.6", true);
    assert_eq!(
        e,
        vec!["--user", "bob", "--frames", "5", "--threshold", "0.6", "--replace", "--device", "/dev/video2"]
    );
    assert_eq!(v, vec!["--user", "bob", "--frames", "10", "--threshold", "0.6", "--device", "/dev/video2"]);
}

#[test]
fn emitter_settings() {
    assert_eq!(emitter_from_settings(None, None, None), EmitterMode::Disabled);
    assert_eq!(emitter_from_settings(Some("none".to_string()), None, None), EmitterMode::Disabled);
    assert_eq!(
        emitter_from_settings(Some("external-command".to_string()), None, None),
        EmitterMode::ExternalCommand(ExternalEmitterCommand {
            program: "linux-enable-ir-emitter".to_string(),
            args: vec!["run".to_string()],
        })
    );
    assert_eq!(
        emitter_from_settings(
            Some("external-command".to_string()),
            Some("/usr/bin/ir".to_string()),
            Some("  --device\t/dev/video2  on ".to_string())
        ),
        EmitterMode::ExternalCommand(ExternalEmitterCommand {
            program: "/usr/bin/ir".to_string(),
            args: vec!["--device".to_string(), "/dev/video2".to_string(), "on".to_string()],
        })
    );
    assert_eq!(
        emitter_from_settings(Some("external-command".to_string()), None, Some("   ".to_string())),
        EmitterMode::ExternalCommand(ExternalEmitterCommand {
            program: "linux-enable-ir-emitter".to_string(),
            args: vec!["run".to_string()],
        })
    );
}

#[test]
fn whitespace_words() {
    for text in ["", "  ", "a", " a  b\tc\n", "x\u{3000}y", "\u{a0}z"] {
        let expected: Vec<String> = text.split_whitespace().map(|s| s.to_string()).collect();
        assert_eq!(split_whitespace(text), expected, "{text:?}");
    }
}

#[test]
fn emitter_outcomes() {
    assert_eq!(emitter_outcome("ir", true, "exit status: 0", b"  \n", b""), Ok(None));
    assert_eq!(
        emitter_outcome("ir", true, "exit status: 0", b" enabled\n", b""),
        Ok(Some("emitter: ran 'ir': enabled".to_string()))
    );
    assert_eq!(
        emitter_outcome("ir", false, "exit status: 2", b"out", b" no device\n"),
        Err("emitter command 'ir' failed (exit=exit status: 2 stdout='out' stderr='no device')".to_string())
    );
}

#[test]
fn model_specs() {
    let sp = sp5_model();
    assert_eq!(sp.filename, "shape_predictor_5_face_landmarks.dat");
    assert!(sp.url.ends_with(".bz2"));
    assert!(!checksum_required(&sp));
    assert!(!checksum_required(&rec_model()));
    assert_eq!(model_dir(None), "/var/lib/face-authd/models");
    assert_eq!(model_dir(Some("/m".to_string())), "/m");
    assert_eq!(
        model_path("/var/lib/face-authd/models", &rec_model()),
        "/var/lib/face-authd/models/dlib_face_recognition_resnet_model_v1.dat"
    );
}

#[test]
fn model_payloads() {
    let plain = ModelSpec { filename: "m.dat", url: "http://x/m.dat", sha256: "" };
    assert_eq!(model_payload(&plain, vec![1, 2, 3]).unwrap(), vec![1, 2, 3]);
    let packed = ModelSpec { filename: "m.dat", url: "http://x/m.dat.bz2", sha256: "" };
    let mut compressed = Vec::new();
    {
        let mut enc = bzip2::write::BzEncoder::new(&mut compressed, bzip2::Compression::best());
        std::io::Write::write_all(&mut enc, b"model bytes").unwrap();
        enc.finish().unwrap();
    }
    assert_eq!(model_payload(&packed, compressed).unwrap(), b"model bytes".to_vec());
    let e = model_payload(&packed, vec![1, 2, 3]).unwrap_err();
    assert_eq!(e, ModelError::DecompressionFailed { url: "http://x/m.dat.bz2".to_string() });
    assert_eq!(e.message(), "failed to decompress http://x/m.dat.bz2");
}

#[test]
fn checksums() {
    let abc = "ba7816bf8f01cfea414140de5dae2223b00361a396177a9cb410ff61f20015ad";
    assert!(verify_sha256_bytes(b"abc", abc).is_ok());
    let e = verify_sha256_bytes(b"abd", abc).unwrap_err();
    assert_eq!(
        e.message(),
        format!("checksum mismatch: expected {abc} got a52d159f262b2c6ddb724a61840befc36eb30c88877a4030b65cbe86298449c9")
    );
    assert!(verify_sha256_bytes(b"abc", &abc.to_uppercase()).is_err());
}

#[test]
fn luma_statistics() {
    assert_eq!(
        luma_counts(&[]),
        LumaCounts { min_luma: 255, max_luma: 0, dark_pixels: 0, bright_pixels: 0 }
    );
    assert_eq!(
        luma_counts(&[32, 33, 223, 224, 100]),
        LumaCounts { min_luma: 32, max_luma: 224, dark_pixels: 1, bright_pixels: 1 }
    );
}

#[test]
fn numbers_and_trimming() {
    assert_eq!(u64_to_decimal(0), "0");
    assert_eq!(u64_to_decimal(u64::MAX), "18446744073709551615");
    assert_eq!(i64_to_decimal(i64::MIN), "-9223372036854775808");
    assert_eq!(parse_u32("4294967295"), Some(u32::MAX));
    assert_eq!(parse_u32("4294967296"), None);
    assert_eq!(parse_u32("-0"), None);
    assert_eq!(parse_u32("+12"), Some(12));
    assert_eq!(parse_usize("007"), Some(7));
    assert_eq!(parse_usize(""), None);
    assert_eq!(parse_i64("-0"), Some(0));
    for s in ["", "+", "-", "12a", "99999999999999999999", "+-1", "٣"] {
        assert_eq!(parse_i64(s), s.parse::<i64>().ok(), "{s:?}");
        assert_eq!(parse_u32(s), s.parse::<u32>().ok(), "{s:?}");
    }
    for s in ["  a b ", "\u{2003}x\u{2003}", "\t\n", "", "a"] {
        assert_eq!(trim_str(s), s.trim(), "{s:?}");
    }
}

#[test]
fn text_order() {
    assert!(str_before("abc", "abd"));
    assert!(str_before("ab", "abc"));
    assert!(!str_before("abc", "ab"));
    assert!(!str_before("abc", "abc"));
    assert!(str_before("", "a"));
    assert!(!str_before("", ""));
    assert!(str_before("Zed", "alice"));
    assert!(str_before("z", "é"));
    for (a, b) in [("bob", "alice"), ("3-1:1.0", "3-1:1.1"), ("video9", "video10"), ("é", "e")] {
        assert_eq!(str_before(a, b), a < b);
    }
}

#[test]
fn sorted_user_names() {
    let names: Vec<String> = ["mallory", "alice", "Bob", "alice", "été", "zed"].iter().map(|s| s.to_string()).collect();
    let sorted = sort_texts(&names);
    let mut expected = names.clone();
    expected.sort();
    assert_eq!(sorted, expected);
    assert_eq!(sorted, vec!["Bob", "alice", "alice", "mallory", "zed", "été"]);
    assert!(sort_texts(&vec![]).is_empty());
}

#[test]
fn set_control_option() {
    assert_eq!(
        control_assignment(" exposure_auto = 1 ").unwrap(),
        ("exposure_auto".to_string(), "1".to_string())
    );
    assert_eq!(control_assignment("a=b=c").unwrap(), ("a".to_string(), "b=c".to_string()));
    assert_eq!(control_assignment("=").unwrap(), (String::new(), String::new()));
    assert_eq!(
        control_assignment("brightness").unwrap_err().message,
        "invalid --set-control value 'brightness'; expected name=value"
    );
}

#[test]
fn split_once_matches_std() {
    for text in ["k=v", "k=", "=v", "none", "", "a=b=c", "é=ü"] {
        let ours = split_once_char(text, '=');
        let std_split = text.split_once('=').map(|(a, b)| (a.to_string(), b.to_string()));
        assert_eq!(ours, std_split);
    }
}

#[test]
fn lines_match_std() {
    for text in ["", "\n", "a", "a\n", "a\r\nb", "foo\r\nbar\n\nbaz\r", "\r\n\r\n", "x\ry\nz", "\n\na"] {
        let ours = lines_of(text);
        let std_lines: Vec<String> = text.lines().map(str::to_string).collect();
        assert_eq!(ours, std_lines, "{text:?}");
    }
    assert_eq!(lines_of("foo\r\nbar\n\nbaz\r"), vec!["foo", "bar", "", "baz\r"]);
}

#[test]
fn checksum_must_be_lower_hex() {
    let digest = "ba7816bf8f01cfea414140de5dae2223b00361a396177a9cb410ff61f20015ad";
    assert!(verify_sha256_bytes(b"abc", digest).is_ok());
    assert!(verify_sha256_bytes(b"abc", &digest.to_uppercase()).is_err());
    assert!(verify_sha256_bytes(b"abc", &digest[..63]).is_err());
    match verify_sha256_bytes(b"abc", "") {
        Err(ModelError::ChecksumMismatch { actual, .. }) => {
            assert_eq!(actual.len(), 64);
            assert!(actual.chars().all(|c| c.is_ascii_hexdigit() && !c.is_ascii_uppercase()));
        }
        other => panic!("unexpected {other:?}"),
    }
}

#[test]
fn whitespace_matches_std_on_every_char() {
    for c in (0u32..=0x10FFFF).filter_map(char::from_u32) {
        assert_eq!(is_whitespace_char(c), c.is_whitespace(), "{:#x}", c as u32);
    }
}
