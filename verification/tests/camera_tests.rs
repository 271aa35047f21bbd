use face_authd::camera::{
    FrameBatch,
    capture_single_frame, capture_support, decode_to_grayscale, fourcc_to_string,
    frame_file_contents, gray_to_rgb, paths_equal, grayscale_pgm_contents, requested_format, rgb_to_luma,
    select_capture_device, select_ir_device, sort_devices_by_path, CameraError, CaptureConfig, CapturedFrame,
    FrameFileKind, GrayscaleFrame, PixelFormatRequest, VideoDeviceInfo,
};

fn dev(path: &str, links: &[&str], fourcc: &str, capture: bool, streaming: bool) -> VideoDeviceInfo {
    VideoDeviceInfo {
        path: path.to_string(),
        symlinks: links.iter().map(|l| l.to_string()).collect(),
        driver: "uvcvideo".to_string(),
        card: "Integrated Camera".to_string(),
        bus: "usb-0000:00:14.0-8".to_string(),
        supports_capture: capture,
        supports_streaming: streaming,
        width: 640,
        height: 360,
        fourcc: fourcc.to_string(),
    }
}

fn frame(fourcc: &str, width: u32, height: u32, bytes: Vec<u8>) -> CapturedFrame {
    CapturedFrame { device: "/dev/video0".to_string(), width, height, fourcc: fourcc.to_string(), sequence: 3, bytes }
}

/// A baseline JPEG of 8x8 pixels with `ncomp` components, every sample 128.
fn tiny_jpeg(ncomp: u8) -> Vec<u8> {
    let mut b = vec![0xFF, 0xD8, 0xFF, 0xDB, 0x00, 0x43, 0x00];
    b.extend(std::iter::repeat(1u8).take(64));
    b.extend([0xFF, 0xC0, 0, 8 + 3 * ncomp, 8, 0, 8, 0, 8, ncomp]);
    for c in 0..ncomp {
        b.extend([c + 1, 0x11, 0]);
    }
    for class in [0x00u8, 0x10] {
        b.extend([0xFF, 0xC4, 0, 0x14, class, 1]);
        b.extend([0u8; 15]);
        b.push(0);
    }
    b.extend([0xFF, 0xDA, 0, 6 + 2 * ncomp, ncomp]);
    for c in 0..ncomp {
        b.extend([c + 1, 0x00]);
    }
    b.extend([0, 63, 0]);
    // one block per component: a DC difference of category 0, then end of block
    b.push(match ncomp {
        1 => 0x3F,
        3 => 0x03,
        _ => 0x00,
    });
    b.extend([0xFF, 0xD9]);
    b
}

#[test]
fn preferred_device_wins_by_path_or_symlink() {
    let devices = vec![
        dev("/dev/video0", &[], "MJPG", true, true),
        dev("/dev/video2", &["/dev/v4l/by-path/pci-0000:00:14.0-usb-0:8:1.2-video-index0"], "GREY", true, true),
    ];
    let by_link = select_capture_device(&devices, Some("/dev/v4l/by-path/pci-0000:00:14.0-usb-0:8:1.2-video-index0"));
    assert_eq!(by_link.unwrap().path, "/dev/video2");
    let by_path = select_capture_device(&devices, Some("/dev/video2/"));
    assert_eq!(by_path.unwrap().path, "/dev/video2");
    let none_match = select_capture_device(&devices, Some("/dev/video9"));
    assert_eq!(none_match.unwrap().path, "/dev/video0");
}

#[test]
fn streaming_device_then_first_device() {
    let devices = vec![
        dev("/dev/video1", &[], "MJPG", false, true),
        dev("/dev/video3", &[], "YUYV", true, true),
    ];
    assert_eq!(select_capture_device(&devices, None).unwrap().path, "/dev/video3");
    let none_stream = vec![dev("/dev/video1", &[], "MJPG", false, false), dev("/dev/video3", &[], "YUYV", true, false)];
    assert_eq!(select_capture_device(&none_stream, None).unwrap().path, "/dev/video1");
    assert!(select_capture_device(&[], Some("/dev/video0")).is_none());
}

#[test]
fn ir_device_preferred_over_preference() {
    let devices = vec![
        dev("/dev/video0", &[], "MJPG", true, true),
        dev("/dev/video2", &[], "Y8", true, true),
    ];
    assert_eq!(select_ir_device(&devices, Some("/dev/video0")).unwrap().path, "/dev/video2");
    let no_ir = vec![dev("/dev/video0", &[], "MJPG", true, true), dev("/dev/video1", &[], "GREY", false, true)];
    assert_eq!(select_ir_device(&no_ir, Some("/dev/video1")).unwrap().path, "/dev/video1");
    let cloned = select_ir_device(&devices, None).unwrap();
    assert_eq!(cloned, devices[1]);
}

#[test]
fn capture_config_defaults_and_overrides() {
    let c = CaptureConfig::default();
    assert_eq!(c, CaptureConfig { width: None, height: None, fourcc: None, buffers: 4 });
    let current = PixelFormatRequest { width: 640, height: 480, fourcc: *b"MJPG" };
    assert_eq!(requested_format(current, &c), current);
    let cfg = CaptureConfig { width: Some(340), height: None, fourcc: Some(*b"GREY"), buffers: 4 };
    assert_eq!(
        requested_format(current, &cfg),
        PixelFormatRequest { width: 340, height: 480, fourcc: *b"GREY" }
    );
}

#[test]
fn capabilities_bits() {
    assert_eq!(capture_support(0x0000_0001 | 0x0400_0000), (true, true));
    assert_eq!(capture_support(0x0000_1000), (true, false));
    assert_eq!(capture_support(0x0400_0000), (false, true));
    assert_eq!(capture_support(0), (false, false));
}

#[test]
fn fourcc_names() {
    assert_eq!(fourcc_to_string(*b"YUYV"), "YUYV");
    assert_eq!(fourcc_to_string([0xFF, 0x00, 0x41, 0x42]), "UNKNOWN");
}

#[test]
fn luma_formula() {
    assert_eq!(rgb_to_luma(255, 255, 255), 255);
    assert_eq!(rgb_to_luma(0, 0, 0), 0);
    assert_eq!(rgb_to_luma(255, 0, 0), 76);
    assert_eq!(rgb_to_luma(0, 255, 0), 149);
    assert_eq!(rgb_to_luma(0, 0, 255), 29);
    assert_eq!(rgb_to_luma(10, 20, 30), 18);
}

#[test]
fn grey_frames_keep_width_times_height_bytes() {
    let f = frame(" GREY ", 2, 2, vec![1, 2, 3, 4, 5]);
    let g = decode_to_grayscale(&f).unwrap();
    assert_eq!(g, GrayscaleFrame { width: 2, height: 2, pixels: vec![1, 2, 3, 4] });
    let short = frame("Y8", 3, 2, vec![1, 2, 3]);
    let err = decode_to_grayscale(&short).unwrap_err();
    assert_eq!(err, CameraError::GreyBufferTooSmall { got: 3, expected: 6 });
    assert_eq!(err.message(), "grey frame buffer too small: got 3 bytes, expected at least 6");
}

#[test]
fn yuyv_frames_keep_luma_samples() {
    let f = frame("YUYV", 2, 1, vec![10, 200, 20, 201, 99]);
    assert_eq!(decode_to_grayscale(&f).unwrap().pixels, vec![10, 20]);
    let odd = frame("YUY2", 1, 1, vec![7, 8]);
    let g = decode_to_grayscale(&odd).unwrap();
    assert_eq!(g.pixels, Vec::<u8>::new());
    assert_eq!(
        grayscale_pgm_contents(&g).unwrap_err(),
        CameraError::GrayscaleSizeMismatch { got: 0, expected: 1 }
    );
    let short = frame("YUYV", 2, 2, vec![0; 7]);
    let err = decode_to_grayscale(&short).unwrap_err();
    assert_eq!(err, CameraError::YuyvBufferTooSmall { got: 7, expected: 8 });
    assert_eq!(err.message(), "yuyv frame buffer too small: got 7 bytes, expected at least 8");
}

#[test]
fn unsupported_format_reported_trimmed() {
    let err = decode_to_grayscale(&frame(" NV12\n", 1, 1, vec![0])).unwrap_err();
    assert_eq!(err, CameraError::UnsupportedPixelFormat { fourcc: "NV12".to_string() });
    assert_eq!(err.message(), "unsupported pixel format for grayscale conversion: NV12");
}

#[test]
fn mjpg_grayscale_frame() {
    let g = decode_to_grayscale(&frame("MJPG", 640, 480, tiny_jpeg(1))).unwrap();
    assert_eq!((g.width, g.height), (8, 8));
    assert_eq!(g.pixels, vec![128u8; 64]);
}

#[test]
fn mjpg_color_frame() {
    let g = decode_to_grayscale(&frame("MJPG", 8, 8, tiny_jpeg(3))).unwrap();
    assert_eq!((g.width, g.height), (8, 8));
    assert_eq!(g.pixels, vec![128u8; 64]);
}

#[test]
fn mjpg_cmyk_frame_matches_float_conversion() {
    let data = tiny_jpeg(4);
    let mut decoder = jpeg_decoder::Decoder::new(std::io::Cursor::new(&data));
    let raw = decoder.decode().unwrap();
    let expected: Vec<u8> = raw
        .chunks_exact(4)
        .map(|chunk| {
            let c = chunk[0] as f32 / 255.0;
            let m = chunk[1] as f32 / 255.0;
            let y = chunk[2] as f32 / 255.0;
            let k = chunk[3] as f32 / 255.0;
            let r = ((1.0 - c) * (1.0 - k) * 255.0).round() as u8;
            let g = ((1.0 - m) * (1.0 - k) * 255.0).round() as u8;
            let b = ((1.0 - y) * (1.0 - k) * 255.0).round() as u8;
            ((299 * r as u32 + 587 * g as u32 + 114 * b as u32) / 1000) as u8
        })
        .collect();
    let g = decode_to_grayscale(&frame("MJPG", 8, 8, data)).unwrap();
    assert_eq!(g.pixels, expected);
    assert_eq!(g.pixels.len(), 64);
}

#[test]
fn cmyk_integer_form_equals_float_form_everywhere() {
    // every pair of channel and key values, through a one-pixel conversion
    for x in 0..=255u32 {
        for k in 0..=255u32 {
            let exact = (((255 - x) * (255 - k) * 2 + 255) / 510) as u8;
            let c = x as f32 / 255.0;
            let kk = k as f32 / 255.0;
            let float = ((1.0 - c) * (1.0 - kk) * 255.0).round() as u8;
            assert_eq!(exact, float, "x={x} k={k}");
        }
    }
}

#[test]
fn mjpg_errors() {
    let err = decode_to_grayscale(&frame("MJPG", 8, 8, vec![1, 2, 3])).unwrap_err();
    assert!(matches!(err, CameraError::JpegDecode { .. }));
    assert_eq!(err.message(), "failed to decode mjpg frame as jpeg");
}

#[test]
fn single_frame_capture() {
    assert_eq!(capture_single_frame(Vec::new()).unwrap_err(), CameraError::NoFrames);
    assert_eq!(CameraError::NoFrames.message(), "capture returned no frames");
    let f = frame("GREY", 1, 1, vec![9]);
    assert_eq!(capture_single_frame(vec![f.clone(), frame("GREY", 1, 1, vec![8])]).unwrap(), f);
}

#[test]
fn frame_files() {
    let (data, kind) = frame_file_contents(&frame("GREY", 3, 1, vec![1, 2, 3, 4])).unwrap();
    assert_eq!(kind, FrameFileKind::Pgm);
    assert_eq!(kind.label(), "pgm");
    let mut expected = b"P5\n3 1\n255\n".to_vec();
    expected.extend([1, 2, 3]);
    assert_eq!(data, expected);
    let (data, kind) = frame_file_contents(&frame("MJPG", 3, 1, vec![5, 6])).unwrap();
    assert_eq!((data, kind.label()), (vec![5, 6], "jpeg"));
    let (data, kind) = frame_file_contents(&frame(" GREY", 3, 1, vec![5])).unwrap();
    assert_eq!((data, kind.label()), (vec![5], "raw"));
    assert_eq!(
        frame_file_contents(&frame("Y8", 3, 1, vec![5])).unwrap_err(),
        CameraError::GreyBufferTooSmall { got: 1, expected: 3 }
    );
}

#[test]
fn grayscale_pgm_files() {
    let g = GrayscaleFrame { width: 2, height: 1, pixels: vec![0, 255] };
    let mut expected = b"P5\n2 1\n255\n".to_vec();
    expected.extend([0, 255]);
    assert_eq!(grayscale_pgm_contents(&g).unwrap(), expected);
    let bad = GrayscaleFrame { width: 2, height: 2, pixels: vec![0, 255] };
    let err = grayscale_pgm_contents(&bad).unwrap_err();
    assert_eq!(err.message(), "grayscale frame size mismatch: got 2 bytes, expected 4");
}

#[test]
fn grey_file_and_grayscale_pgm_agree() {
    let f = frame("GREY", 2, 2, vec![4, 3, 2, 1, 0]);
    let (file, _) = frame_file_contents(&f).unwrap();
    let pgm = grayscale_pgm_contents(&decode_to_grayscale(&f).unwrap()).unwrap();
    assert_eq!(file, pgm);
}

#[test]
fn devices_sorted_by_path_text() {
    let devices = vec![
        dev("/dev/video10", &[], "MJPG", true, true),
        dev("/dev/video2", &[], "GREY", true, true),
        dev("/dev/video0", &[], "YUYV", true, false),
        dev("/dev/video1", &[], "YUYV", true, true),
    ];
    let sorted = sort_devices_by_path(devices);
    let paths: Vec<&str> = sorted.iter().map(|d| d.path.as_str()).collect();
    assert_eq!(paths, vec!["/dev/video0", "/dev/video1", "/dev/video10", "/dev/video2"]);
    assert_eq!(sorted[1].fourcc, "YUYV");
    assert!(sorted[1].supports_streaming);
    let mut by_path: Vec<std::path::PathBuf> =
        ["/dev/video10", "/dev/video2", "/dev/video0", "/dev/video1"].iter().map(std::path::PathBuf::from).collect();
    by_path.sort();
    let expected: Vec<String> = by_path.iter().map(|p| p.display().to_string()).collect();
    assert_eq!(paths, expected);
    assert!(sort_devices_by_path(vec![]).is_empty());
}

#[test]
fn gray_expands_to_rgb() {
    assert_eq!(gray_to_rgb(&vec![0, 7, 255]), vec![0, 0, 0, 7, 7, 7, 255, 255, 255]);
    assert!(gray_to_rgb(&vec![]).is_empty());
}

#[test]
fn devices_with_equal_paths_keep_their_order() {
    let devices = vec![
        dev("/dev/video3", &[], "MJPG", true, true),
        dev("/dev/video1", &[], "GREY", true, true),
        dev("/dev/video3", &[], "YUYV", true, true),
        dev("/dev/video1", &[], "Y8", true, false),
    ];
    let sorted = sort_devices_by_path(devices);
    let seen: Vec<(&str, &str)> = sorted.iter().map(|d| (d.path.as_str(), d.fourcc.as_str())).collect();
    assert_eq!(
        seen,
        vec![("/dev/video1", "GREY"), ("/dev/video1", "Y8"), ("/dev/video3", "MJPG"), ("/dev/video3", "YUYV")]
    );
}

#[test]
fn path_equality_matches_std() {
    let parts = ["", "/", "//", ".", "..", "a", "b", "./", "a/", "/a", "a//b", "a/./b", "./a", "a/.", ".a", "a/..", "/./", "/dev/video0", "/dev/video0/"];
    let mut paths: Vec<String> = Vec::new();
    for x in parts {
        for y in parts {
            paths.push(format!("{x}{y}"));
        }
    }
    for a in &paths {
        for b in &paths {
            let ours = paths_equal(a, b);
            let std_eq = std::path::Path::new(a) == std::path::Path::new(b);
            assert_eq!(ours, std_eq, "{a:?} {b:?}");
        }
    }
}

#[test]
fn preferred_path_with_trailing_slash_selects_its_device() {
    let devices = vec![dev("/dev/video0", &[], "YUYV", true, true), dev("/dev/video2", &["/dev/v4l/by-path/ir"], "GREY", true, true)];
    assert_eq!(select_capture_device(&devices, Some("/dev/video2/")).unwrap().path, "/dev/video2");
    assert_eq!(select_capture_device(&devices, Some("/dev/v4l/by-path//ir")).unwrap().path, "/dev/video2");
    assert_eq!(select_capture_device(&devices, Some("/dev/./video0")).unwrap().path, "/dev/video0");
}

#[test]
fn converted_frames_save_as_pgm() {
    for f in [
        frame("MJPG", 640, 480, tiny_jpeg(1)),
        frame("MJPG", 8, 8, tiny_jpeg(3)),
        frame("GREY", 2, 2, vec![1, 2, 3, 4, 5]),
        frame("YUYV", 2, 1, vec![10, 0, 20, 0]),
    ] {
        let g = decode_to_grayscale(&f).unwrap();
        assert_eq!(g.pixels.len(), (g.width * g.height) as usize);
        let file = grayscale_pgm_contents(&g).unwrap();
        assert!(file.ends_with(&g.pixels));
    }
    let odd = decode_to_grayscale(&frame("YUYV", 1, 1, vec![10, 0])).unwrap();
    assert!(odd.pixels.is_empty());
    assert!(grayscale_pgm_contents(&odd).is_err());
}

#[test]
fn one_frame_capture_gives_that_frame() {
    let mut batch = FrameBatch::new("/dev/video2".to_string(), 1);
    assert!(batch.needs_more());
    batch.add(4, 2, "GREY".to_string(), 9, vec![1; 8]);
    assert!(!batch.needs_more());
    let f = capture_single_frame(batch.into_frames()).unwrap();
    assert_eq!((f.device.as_str(), f.width, f.height, f.sequence), ("/dev/video2", 4, 2, 9));
}
