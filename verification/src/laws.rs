//! Properties that span several functions of the library.
use vstd::prelude::*;
use crate::camera::{
    jpeg_decoded, JpegPixelKind, ir_device_choice, capture_choice, lemma_first_from, VideoDeviceInfo,
    single_frame_result, FrameBatch, frame_file_result, grayscale_result, pgm_header, pgm_result, yuyv_luma, CameraError, CapturedFrame,
    FrameFileKind, GrayscaleFrame,
};
use crate::controls::{
    control_value_text_spec, readable_type, settable_value_result, RawDeviceControl, CTRL_TYPE_BOOLEAN,
};
use crate::args::{user_args_from, user_defaults, UserCommand, UserOptionsView};
use crate::vision::luma_counts_spec;
use crate::daemon::{client_step_spec, decision_response, ClientStep};
use crate::enrollment::{fixed_key, enrollment_path_spec, joined_path, kept_in_username, sanitized, ENROLLMENT_FILE};
use crate::pam::{outcome_code, reply_outcome_spec, PamCode};
use crate::protocol::{Request, Response};
use crate::provider::AuthDecision;
use crate::text::{
    is_alphanumeric, all_digits, decimal, digit_char, digits_value, is_ascii_digit, is_whitespace, parse_i64_spec,
    signed_decimal, signed_literal, trim, trim_end, trim_start, ascii_lower_seq,
};

verus! {

/// PAM authentication succeeds for a provider's decision exactly when the
/// provider allowed: a denial and a provider failure both end in `AuthErr`.
pub proof fn pam_succeeds_only_when_allowed(decision: AuthDecision, response: Response)
    requires
        decision_response(decision, response),
    ensures
        (outcome_code(reply_outcome_spec(Some(response))) == PamCode::Success) <==> (
        decision is Allow),
        !(decision is Allow) ==> outcome_code(reply_outcome_spec(Some(response)))
            == PamCode::AuthErr,
{
}

/// Whatever the daemon answers without consulting the provider (a pong, a
/// refused protocol version, an unparsable request) never makes PAM
/// authentication succeed.
pub proof fn unconsulted_answers_never_authenticate(parsed: Result<Request, String>, reply: Response)
    requires
        client_step_spec(parsed, ClientStep::Reply(reply)),
    ensures
        outcome_code(reply_outcome_spec(Some(reply))) != PamCode::Success,
{
}

/// An answer that cannot be parsed is a system error, never a success.
pub proof fn unreadable_answer_is_system_error()
    ensures
        outcome_code(reply_outcome_spec(None)) == PamCode::SystemErr,
{
}

proof fn lemma_grey_is_trimmed()
    ensures
        trim("GREY"@) == "GREY"@,
        trim("Y8"@) == "Y8"@,
{
    reveal_strlit("GREY");
    reveal_strlit("Y8");
    let g = "GREY"@;
    assert(!is_whitespace(g[0]));
    assert(trim_start(g) == g);
    assert(!is_whitespace(g.last()));
    assert(trim_end(g) == g);
    let y = "Y8"@;
    assert(!is_whitespace(y[0]));
    assert(trim_start(y) == y);
    assert(!is_whitespace(y.last()));
    assert(trim_end(y) == y);
}

/// For a GREY or Y8 frame, saving the captured frame and saving its
/// grayscale conversion as PGM give the same file.
pub proof fn grey_frame_files_agree(
    frame: CapturedFrame,
    gray: GrayscaleFrame,
    frame_file: Vec<u8>,
    kind: FrameFileKind,
    gray_file: Vec<u8>,
)
    requires
        frame.fourcc@ == "GREY"@ || frame.fourcc@ == "Y8"@,
        grayscale_result(frame, Ok(gray)),
        frame_file_result(frame, Ok((frame_file, kind))),
        pgm_result(gray, Ok(gray_file)),
    ensures
        kind == FrameFileKind::Pgm,
        gray_file@ == frame_file@,
{
    lemma_grey_is_trimmed();
    reveal_strlit("MJPG");
    reveal_strlit("GREY");
    reveal_strlit("Y8");
}

/// Converting a YUYV frame keeps two samples of every complete group of
/// four bytes: width times height pixels when that product is even, one
/// fewer when it is odd (so the grayscale frame of an odd-sized YUYV frame
/// cannot be saved as PGM).
pub proof fn yuyv_pixel_count(frame: CapturedFrame, gray: GrayscaleFrame)
    requires
        yuyv_luma(frame.bytes@, frame.width * frame.height * 2).len() == gray.pixels@.len(),
    ensures
        gray.pixels@.len() == frame.width * frame.height - (frame.width * frame.height) % 2,
{
    let a = frame.width * frame.height;
    assert((2 * (a * 2 / 4)) == a - a % 2) by (nonlinear_arith)
        requires
            a >= 0,
    ;
}

proof fn lemma_decimal_digits(n: nat)
    ensures
        decimal(n).len() > 0,
        all_digits(decimal(n)),
        digits_value(decimal(n)) == n,
    decreases n,
{
    if n < 10 {
        let d = decimal(n);
        assert(d =~= seq![digit_char(n as int)]);
        assert(d.drop_last() =~= Seq::<char>::empty());
        assert(is_ascii_digit(d[0]));
        assert((digit_char(n as int) as u32) == 48 + n);
        assert(digits_value(d.drop_last()) == 0);
        assert(d.last() == digit_char(n as int));
    } else {
        lemma_decimal_digits(n / 10);
        let d = decimal(n);
        let p = decimal(n / 10);
        assert(d.drop_last() =~= p);
        assert((digit_char((n % 10) as int) as u32) == 48 + n % 10);
        assert(d.last() == digit_char((n % 10) as int));
        assert(n == (n / 10) * 10 + n % 10);
        assert forall|i: int| 0 <= i < d.len() implies #[trigger] is_ascii_digit(d[i]) by {
            if i < p.len() {
                assert(d[i] == p[i]);
            }
        }
    }
}

/// The decimal text of any 64-bit integer parses back to it, so a control
/// value shown as text can be set again from that text.
pub proof fn decimal_text_parses_back(v: i64)
    ensures
        parse_i64_spec(signed_decimal(v as int)) == Some(v),
{
    if v < 0 {
        let n = (-(v as int)) as nat;
        lemma_decimal_digits(n);
        let s = signed_decimal(v as int);
        assert(s[0] == '-');
        assert(s.drop_first() =~= decimal(n));
    } else {
        let n = v as nat;
        lemma_decimal_digits(n);
        let s = signed_decimal(v as int);
        assert(is_ascii_digit(s[0]));
        assert(signed_literal(s) == Some(n as int));
    }
}

/// The text that shows a control's current value sets the same value again:
/// booleans shown as `true`/`false` set 1/0, other readable controls set
/// their value.
pub proof fn shown_value_sets_back(control: RawDeviceControl, value: i32)
    requires
        readable_type(control.typ),
    ensures
        settable_value_result(
            control,
            control_value_text_spec(control.typ, value),
            Ok(
                if control.typ == CTRL_TYPE_BOOLEAN {
                    if value != 0 {
                        1i64
                    } else {
                        0i64
                    }
                } else {
                    value as i64
                },
            ),
        ),
{
    if control.typ == CTRL_TYPE_BOOLEAN {
        reveal_strlit("true");
        reveal_strlit("false");
        reveal_strlit("1");
        reveal_strlit("yes");
        reveal_strlit("on");
        reveal_strlit("0");
        reveal_strlit("no");
        reveal_strlit("off");
        assert(ascii_lower_seq("true"@) =~= "true"@);
        assert(ascii_lower_seq("false"@) =~= "false"@);
    } else {
        decimal_text_parses_back(value as i64);
    }
}

/// A sanitized user name holds no `/`, so it names one directory level.
pub proof fn sanitized_name_has_no_slash(name: Seq<char>)
    ensures
        !sanitized(name).contains('/'),
        sanitized(name).len() == name.len(),
{
    if sanitized(name).contains('/') {
        let k = choose|k: int| 0 <= k < sanitized(name).len() && sanitized(name)[k] == '/';
        assert(kept_in_username(name[k]));
    }
}

/// Sanitizing a sanitized user name changes nothing.
pub proof fn sanitizing_is_idempotent(name: Seq<char>)
    ensures
        sanitized(sanitized(name)) == sanitized(name),
{
    let s = sanitized(name);
    assert forall|k: int| 0 <= k < s.len() implies kept_in_username(#[trigger] s[k]) by {
        if !kept_in_username(name[k]) {
            assert(s[k] == '_');
        }
    }
    assert(sanitized(s) =~= s);
}

/// The part of an enrollment path that the user's directory contributes.
spec fn user_part(dir_name: Seq<char>) -> Seq<char> {
    if dir_name.len() == 0 {
        seq![]
    } else {
        dir_name + seq!['/']
    }
}

/// The part of an enrollment path before the user's directory.
spec fn data_dir_part(data_dir: Seq<char>) -> Seq<char> {
    if data_dir.len() == 0 || data_dir.last() == '/' {
        data_dir
    } else {
        data_dir + seq!['/']
    }
}

proof fn lemma_enrollment_path_shape(data_dir: Seq<char>, user: Seq<char>)
    ensures
        enrollment_path_spec(data_dir, user) == data_dir_part(data_dir) + user_part(sanitized(user))
            + ENROLLMENT_FILE@,
{
    reveal_strlit("enrollment.json");
    sanitized_name_has_no_slash(user);
    let s = sanitized(user);
    if s.len() > 0 {
        assert(s[0] != '/') by {
            assert(s.contains(s[0]));
        }
    }
    let d = joined_path(data_dir, s);
    if s.len() > 0 {
        assert(d.last() == s.last());
        assert(s.last() != '/') by {
            assert(s.contains(s.last()));
        }
        assert(d =~= data_dir_part(data_dir) + s);
        assert(joined_path(d, ENROLLMENT_FILE@) =~= data_dir_part(data_dir) + user_part(s)
            + ENROLLMENT_FILE@);
    } else {
        assert(d =~= data_dir_part(data_dir) + s);
        if data_dir.len() == 0 {
            assert(joined_path(d, ENROLLMENT_FILE@) =~= data_dir_part(data_dir) + user_part(s)
                + ENROLLMENT_FILE@);
        } else {
            assert(d.last() == '/');
            assert(joined_path(d, ENROLLMENT_FILE@) =~= data_dir_part(data_dir) + user_part(s)
                + ENROLLMENT_FILE@);
        }
    }
}

/// Two users whose directory names differ never share an enrollment file,
/// whatever the data directory.
pub proof fn distinct_users_have_distinct_enrollment_files(
    data_dir: Seq<char>,
    a: Seq<char>,
    b: Seq<char>,
)
    requires
        sanitized(a) != sanitized(b),
    ensures
        enrollment_path_spec(data_dir, a) != enrollment_path_spec(data_dir, b),
{
    lemma_enrollment_path_shape(data_dir, a);
    lemma_enrollment_path_shape(data_dir, b);
    let p = data_dir_part(data_dir);
    let f = ENROLLMENT_FILE@;
    let ta = user_part(sanitized(a));
    let tb = user_part(sanitized(b));
    if enrollment_path_spec(data_dir, a) == enrollment_path_spec(data_dir, b) {
        let x = p + ta + f;
        let y = p + tb + f;
        assert(x == y);
        assert(x.len() == p.len() + ta.len() + f.len());
        assert(y.len() == p.len() + tb.len() + f.len());
        assert(ta =~= x.subrange(p.len() as int, (p.len() + ta.len()) as int));
        assert(tb =~= y.subrange(p.len() as int, (p.len() + tb.len()) as int));
        assert(ta == tb);
        if sanitized(a).len() > 0 && sanitized(b).len() > 0 {
            assert(sanitized(a) =~= ta.drop_last());
            assert(sanitized(b) =~= tb.drop_last());
        } else if sanitized(a).len() == 0 && sanitized(b).len() == 0 {
            assert(sanitized(a) =~= sanitized(b));
        } else {
            assert(ta.len() != tb.len());
        }
        assert(false);
    }
}

/// A grayscale frame that holds width times height pixels, as every frame
/// that `decode_to_grayscale` converts does (but for YUYV frames of odd
/// area and losslessly coded MJPG frames), saves as a PGM file: its header,
/// then its pixels.
pub proof fn full_frames_save_as_pgm(gray: GrayscaleFrame, r: Result<Vec<u8>, CameraError>)
    requires
        gray.pixels@.len() == gray.width * gray.height,
        pgm_result(gray, r),
    ensures
        r matches Ok(data) && data@ == pgm_header(gray.width, gray.height) + gray.pixels@,
{
}

/// A complete capture of one frame yields that frame, taken from the
/// device that the capture was asked of: `NoFrames` never follows a capture
/// that completed.
pub proof fn one_frame_capture_yields_its_frame(batch: FrameBatch)
    requires
        batch.wf(),
        batch.wanted == 1,
        batch.frames@.len() == batch.wanted,
    ensures
        single_frame_result(batch.frames@) == Ok::<CapturedFrame, CameraError>(batch.frames@[0]),
        batch.frames@[0].device == batch.device,
{
}

/// A key that was generated and stored in the keyring is accepted, as it
/// is, when it is read back: every later read of an unchanged keyring
/// gives the same key.
pub proof fn stored_key_reads_back(key: [u8; 32])
    ensures
        fixed_key(key@) == Ok::<Seq<u8>, crate::enrollment::EnrollmentError>(key@),
{
}

/// The directory of a user keeps every letter and digit of the name
/// (ASCII or not), every `-`, `_` and `.`, in place, and writes `_` for
/// each other character only.
pub proof fn user_directory_keeps_name_characters(name: Seq<char>)
    ensures
        sanitized(name).len() == name.len(),
        forall|k: int|
            0 <= k < name.len() && (('0' <= name[k] && name[k] <= '9') || ('a' <= name[k] && name[k]
                <= 'z') || ('A' <= name[k] && name[k] <= 'Z')) ==> #[trigger] sanitized(name)[k]
                == name[k],
        forall|k: int|
            0 <= k < name.len() && (is_alphanumeric(name[k]) || name[k] == '-' || name[k] == '_'
                || name[k] == '.') ==> #[trigger] sanitized(name)[k] == name[k],
        forall|k: int|
            0 <= k < name.len() && !(is_alphanumeric(name[k]) || name[k] == '-' || name[k] == '_'
                || name[k] == '.') ==> #[trigger] sanitized(name)[k] == '_',
{
}

/// A user name made only of letters, digits, `-`, `_` and `.` is its own
/// directory name, so two such names that differ (`user1`, `user2`) never
/// share an enrollment file.
pub proof fn plain_names_keep_their_own_files(data_dir: Seq<char>, a: Seq<char>, b: Seq<char>)
    requires
        a != b,
        forall|k: int|
            0 <= k < a.len() ==> is_alphanumeric(#[trigger] a[k]) || a[k] == '-' || a[k] == '_'
                || a[k] == '.',
        forall|k: int|
            0 <= k < b.len() ==> is_alphanumeric(#[trigger] b[k]) || b[k] == '-' || b[k] == '_'
                || b[k] == '.',
    ensures
        sanitized(a) == a,
        sanitized(b) == b,
        enrollment_path_spec(data_dir, a) != enrollment_path_spec(data_dir, b),
{
    assert(sanitized(a) =~= a);
    assert(sanitized(b) =~= b);
    distinct_users_have_distinct_enrollment_files(data_dir, a, b);
}

/// A colour MJPG frame becomes one gray pixel per RGB triple of its JPEG:
/// pixel `i` is `(299 r + 587 g + 114 b) / 1000` of the `i`-th triple,
/// in the JPEG's own size.
pub proof fn color_mjpg_pixels_are_luma_of_each_triple(
    frame: CapturedFrame,
    gray: GrayscaleFrame,
    p: Seq<u8>,
    w: u16,
    h: u16,
    lossless: bool,
)
    requires
        trim(frame.fourcc@) == "MJPG"@,
        jpeg_decoded(frame.bytes@) == Ok::<_, Option<Seq<char>>>(
            (p, JpegPixelKind::Rgb24, w, h, lossless),
        ),
        grayscale_result(frame, Ok(gray)),
    ensures
        gray.width == w,
        gray.height == h,
        gray.pixels@.len() == p.len() / 3,
        forall|i: int|
            0 <= i < gray.pixels@.len() ==> #[trigger] gray.pixels@[i] as int == (299 * p[3 * i] + 587
                * p[3 * i + 1] + 114 * p[3 * i + 2]) / 1000,
{
    reveal_strlit("MJPG");
    reveal_strlit("GREY");
    reveal_strlit("Y8");
    assert("MJPG"@ != "GREY"@ && "MJPG"@ != "Y8"@) by {
        assert("MJPG"@[0] != "GREY"@[0]);
        assert("MJPG"@.len() != "Y8"@.len());
    }
    assert(crate::camera::mjpg_result(frame, Ok(gray)));
    assert(gray.pixels@ == crate::camera::rgb24_luma(p));
    assert forall|i: int| 0 <= i < gray.pixels@.len() implies #[trigger] gray.pixels@[i] as int == (299
        * p[3 * i] + 587 * p[3 * i + 1] + 114 * p[3 * i + 2]) / 1000 by {
        assert(3 * i + 2 < p.len()) by (nonlinear_arith)
            requires
                0 <= i < p.len() / 3,
        ;
        let r = p[3 * i] as int;
        let g = p[3 * i + 1] as int;
        let b = p[3 * i + 2] as int;
        assert((299 * r + 587 * g + 114 * b) / 1000 <= 255) by (nonlinear_arith)
            requires
                0 <= r <= 255,
                0 <= g <= 255,
                0 <= b <= 255,
        ;
        assert((299 * r + 587 * g + 114 * b) / 1000 >= 0) by (nonlinear_arith)
            requires
                0 <= r,
                0 <= g,
                0 <= b,
        ;
    }
}

/// Whether a device captures and streams in GREY or Y8.
pub open spec fn streams_grey(d: VideoDeviceInfo) -> bool {
    d.supports_capture && d.supports_streaming && (d.fourcc@ == "GREY"@ || d.fourcc@ == "Y8"@)
}

/// The infrared camera is the first device that captures and streams in
/// GREY or Y8, whatever device is preferred.
pub proof fn infrared_camera_is_first_grey_stream(
    devices: Seq<VideoDeviceInfo>,
    preferred: Option<&str>,
    i: int,
)
    requires
        0 <= i < devices.len(),
        devices[i].supports_capture && devices[i].supports_streaming && (devices[i].fourcc@
            == "GREY"@ || devices[i].fourcc@ == "Y8"@),
        forall|j: int|
            0 <= j < i ==> !(#[trigger] devices[j].supports_capture && devices[j].supports_streaming
                && (devices[j].fourcc@ == "GREY"@ || devices[j].fourcc@ == "Y8"@)),
    ensures
        ir_device_choice(devices, preferred) == Some(i),
{
    let pred = |k: int| crate::camera::is_ir_stream(devices[k]);
    lemma_first_from(0, devices.len() as int, pred);
    assert(pred(i));
    assert forall|j: int| 0 <= j < i implies !crate::camera::is_ir_stream(#[trigger] devices[j]) by {
        assert(!(devices[j].supports_capture && devices[j].supports_streaming && (devices[j].fourcc@
            == "GREY"@ || devices[j].fourcc@ == "Y8"@)));
    }
}

/// A device that does not stream GREY or Y8 is taken for the infrared
/// camera only when no device does: then the choice is the one that
/// `select_capture_device` makes.
pub proof fn infrared_camera_falls_back_only_without_grey_stream(
    devices: Seq<VideoDeviceInfo>,
    preferred: Option<&str>,
)
    ensures
        (exists|i: int| 0 <= i < devices.len() && streams_grey(#[trigger] devices[i]))
            ==> (ir_device_choice(devices, preferred) matches Some(k) && 0 <= k < devices.len()
            && streams_grey(devices[k])),
        (forall|i: int| 0 <= i < devices.len() ==> !streams_grey(#[trigger] devices[i]))
            ==> ir_device_choice(devices, preferred) == capture_choice(devices, preferred),
{
    let pred = |k: int| crate::camera::is_ir_stream(devices[k]);
    lemma_first_from(0, devices.len() as int, pred);
    if exists|i: int| 0 <= i < devices.len() && streams_grey(#[trigger] devices[i]) {
        let i = choose|i: int| 0 <= i < devices.len() && streams_grey(#[trigger] devices[i]);
        assert(pred(i));
    } else {
        assert forall|j: int| 0 <= j < devices.len() implies !crate::camera::is_ir_stream(
            #[trigger] devices[j],
        ) by {
            assert(!streams_grey(devices[j]));
        }
    }
}

/// `enroll --user NAME --replace` (and the same for `enroll-verify`, to
/// which `setup` hands `--replace`) acts for NAME and replaces a stored
/// enrollment, every other option at its default.
pub proof fn enroll_accepts_replace(
    kind: UserCommand,
    name: Seq<char>,
    floats: Seq<bool>,
    default_user: Seq<char>,
)
    requires
        kind == UserCommand::Enroll || kind == UserCommand::EnrollVerify,
        floats.len() == 3,
    ensures
        user_args_from(kind, seq!["--user"@, name, "--replace"@], floats, 0, user_defaults(kind, default_user))
            == Ok::<UserOptionsView, Seq<char>>(
            UserOptionsView {
                user: name,
                device: None,
                frames: 5,
                verify_frames: 10,
                threshold: None,
                replace: true,
            },
        ),
{
    reveal_strlit("--user");
    reveal_strlit("--replace");
    reveal_strlit("--device");
    reveal_strlit("--frames");
    reveal_strlit("--verify-frames");
    reveal_strlit("--threshold");
    let args = seq!["--user"@, name, "--replace"@];
    let r = "--replace"@;
    assert(r != "--user"@ && r != "--device"@ && r != "--frames"@ && r != "--verify-frames"@ && r
        != "--threshold"@) by {
        assert(r.len() != "--user"@.len());
        assert(r.len() != "--device"@.len());
        assert(r.len() != "--frames"@.len());
        assert(r.len() != "--verify-frames"@.len());
        assert(r[2] != "--threshold"@[2]);
    }
    let st = UserOptionsView { user: name, ..user_defaults(kind, default_user) };
    assert(user_args_from(kind, args, floats, 3, UserOptionsView { replace: true, ..st }) == Ok::<
        UserOptionsView,
        Seq<char>,
    >(UserOptionsView { replace: true, ..st }));
    assert(user_args_from(kind, args, floats, 2, st) == user_args_from(
        kind,
        args,
        floats,
        3,
        UserOptionsView { replace: true, ..st },
    ));
}

/// The quality counts of a frame: `dark_pixels` is the number of pixels at
/// most 32 and `bright_pixels` the number at least 224, each pixel counted
/// once; `min_luma` and `max_luma` are the smallest and largest pixel.
pub proof fn luma_counts_count_every_pixel(pixels: Seq<u8>)
    requires
        pixels.len() <= usize::MAX,
    ensures
        luma_counts_spec(pixels).dark_pixels == pixels.filter(|p: u8| p <= 32).len(),
        luma_counts_spec(pixels).bright_pixels == pixels.filter(|p: u8| p >= 224).len(),
        forall|i: int|
            0 <= i < pixels.len() ==> luma_counts_spec(pixels).min_luma <= #[trigger] pixels[i]
                <= luma_counts_spec(pixels).max_luma,
        pixels.len() > 0 ==> exists|i: int|
            0 <= i < pixels.len() && pixels[i] == luma_counts_spec(pixels).min_luma,
        pixels.len() > 0 ==> exists|i: int|
            0 <= i < pixels.len() && pixels[i] == luma_counts_spec(pixels).max_luma,
    decreases pixels.len(),
{
    reveal(Seq::filter);
    if pixels.len() > 0 {
        let t = pixels.drop_last();
        luma_counts_count_every_pixel(t);
        t.lemma_filter_len(|p: u8| p <= 32);
        t.lemma_filter_len(|p: u8| p >= 224);
        let c = luma_counts_spec(t);
        assert forall|i: int|
            0 <= i < pixels.len() implies luma_counts_spec(pixels).min_luma <= #[trigger] pixels[i]
            <= luma_counts_spec(pixels).max_luma by {
            if i < t.len() {
                assert(pixels[i] == t[i]);
            }
        }
        if t.len() > 0 {
            let j = choose|j: int| 0 <= j < t.len() && t[j] == c.min_luma;
            let k = choose|k: int| 0 <= k < t.len() && t[k] == c.max_luma;
            assert(pixels[j] == t[j]);
            assert(pixels[k] == t[k]);
        }
        assert(pixels[pixels.len() - 1] == pixels.last());
    }
}

/// A YUYV (or YUY2) frame becomes its Y samples in order: of each group
/// of four bytes Y0 U Y1 V, bytes 0 and 2, in the frame's own size.
pub proof fn yuyv_pixels_are_the_y_samples(frame: CapturedFrame, gray: GrayscaleFrame)
    requires
        trim(frame.fourcc@) == "YUYV"@ || trim(frame.fourcc@) == "YUY2"@,
        grayscale_result(frame, Ok(gray)),
    ensures
        gray.width == frame.width,
        gray.height == frame.height,
        gray.pixels@.len() == 2 * ((frame.width * frame.height * 2) / 4),
        forall|k: int|
            0 <= k < (frame.width * frame.height * 2) / 4 ==> #[trigger] gray.pixels@[2 * k]
                == frame.bytes@[4 * k] && gray.pixels@[2 * k + 1] == frame.bytes@[4 * k + 2],
{
    reveal_strlit("MJPG");
    reveal_strlit("GREY");
    reveal_strlit("Y8");
    reveal_strlit("YUYV");
    reveal_strlit("YUY2");
    let code = trim(frame.fourcc@);
    assert(code != "GREY"@ && code != "Y8"@ && code != "MJPG"@) by {
        assert("YUYV"@[0] != "GREY"@[0] && "YUY2"@[0] != "GREY"@[0]);
        assert("YUYV"@.len() != "Y8"@.len() && "YUY2"@.len() != "Y8"@.len());
        assert("YUYV"@[0] != "MJPG"@[0] && "YUY2"@[0] != "MJPG"@[0]);
    }
    assert(crate::camera::yuyv_result(frame, Ok(gray)));
}

/// A CMYK MJPG frame becomes one gray pixel per CMYK quadruple: each of
/// R, G, B is `(255 - x)(255 - k)/255` rounded to the nearest integer, and
/// the pixel is `(299 R + 587 G + 114 B) / 1000`.
pub proof fn cmyk_mjpg_pixels_are_luma_of_each_quadruple(
    frame: CapturedFrame,
    gray: GrayscaleFrame,
    p: Seq<u8>,
    w: u16,
    h: u16,
    lossless: bool,
)
    requires
        trim(frame.fourcc@) == "MJPG"@,
        jpeg_decoded(frame.bytes@) == Ok::<_, Option<Seq<char>>>(
            (p, JpegPixelKind::Cmyk32, w, h, lossless),
        ),
        grayscale_result(frame, Ok(gray)),
    ensures
        gray.width == w,
        gray.height == h,
        gray.pixels@.len() == p.len() / 4,
        forall|i: int|
            0 <= i < gray.pixels@.len() ==> #[trigger] gray.pixels@[i] as int == (299 * (((255
                - p[4 * i]) * (255 - p[4 * i + 3]) * 2 + 255) / 510) + 587 * (((255 - p[4 * i + 1])
                * (255 - p[4 * i + 3]) * 2 + 255) / 510) + 114 * (((255 - p[4 * i + 2]) * (255 - p[4
                * i + 3]) * 2 + 255) / 510)) / 1000,
{
    reveal_strlit("MJPG");
    reveal_strlit("GREY");
    reveal_strlit("Y8");
    assert("MJPG"@ != "GREY"@ && "MJPG"@ != "Y8"@) by {
        assert("MJPG"@[0] != "GREY"@[0]);
        assert("MJPG"@.len() != "Y8"@.len());
    }
    assert(crate::camera::mjpg_result(frame, Ok(gray)));
    assert forall|i: int| 0 <= i < gray.pixels@.len() implies #[trigger] gray.pixels@[i] as int == (
    299 * (((255 - p[4 * i]) * (255 - p[4 * i + 3]) * 2 + 255) / 510) + 587 * (((255 - p[4 * i
        + 1]) * (255 - p[4 * i + 3]) * 2 + 255) / 510) + 114 * (((255 - p[4 * i + 2]) * (255 - p[4
        * i + 3]) * 2 + 255) / 510)) / 1000 by {
        assert(4 * i + 3 < p.len()) by (nonlinear_arith)
            requires
                0 <= i < p.len() / 4,
        ;
        let k = p[4 * i + 3] as int;
        let r = crate::camera::cmyk_channel(p[4 * i] as int, k);
        let g = crate::camera::cmyk_channel(p[4 * i + 1] as int, k);
        let b = crate::camera::cmyk_channel(p[4 * i + 2] as int, k);
        lemma_cmyk_channel_is_byte(p[4 * i] as int, k);
        lemma_cmyk_channel_is_byte(p[4 * i + 1] as int, k);
        lemma_cmyk_channel_is_byte(p[4 * i + 2] as int, k);
        assert(0 <= (299 * r + 587 * g + 114 * b) / 1000 <= 255) by (nonlinear_arith)
            requires
                0 <= r <= 255,
                0 <= g <= 255,
                0 <= b <= 255,
        ;
    }
}

proof fn lemma_cmyk_channel_is_byte(x: int, k: int)
    requires
        0 <= x <= 255,
        0 <= k <= 255,
    ensures
        0 <= crate::camera::cmyk_channel(x, k) <= 255,
{
    assert(0 <= ((255 - x) * (255 - k) * 2 + 255) / 510 <= 255) by (nonlinear_arith)
        requires
            0 <= x <= 255,
            0 <= k <= 255,
    ;
}

/// A GREY (or Y8) frame keeps its first width times height bytes, in
/// order, as its pixels, and its size.
pub proof fn grey_pixels_are_the_frame_bytes(frame: CapturedFrame, gray: GrayscaleFrame)
    requires
        trim(frame.fourcc@) == "GREY"@ || trim(frame.fourcc@) == "Y8"@,
        grayscale_result(frame, Ok(gray)),
    ensures
        gray.width == frame.width,
        gray.height == frame.height,
        gray.pixels@.len() == frame.width * frame.height,
        forall|i: int| 0 <= i < gray.pixels@.len() ==> #[trigger] gray.pixels@[i] == frame.bytes@[i],
{
}

/// A grayscale MJPG frame (8-bit samples) keeps the JPEG's samples as its
/// pixels, in the JPEG's own size.
pub proof fn gray_mjpg_pixels_are_the_samples(
    frame: CapturedFrame,
    gray: GrayscaleFrame,
    p: Seq<u8>,
    w: u16,
    h: u16,
    lossless: bool,
)
    requires
        trim(frame.fourcc@) == "MJPG"@,
        jpeg_decoded(frame.bytes@) == Ok::<_, Option<Seq<char>>>((p, JpegPixelKind::L8, w, h, lossless)),
        grayscale_result(frame, Ok(gray)),
    ensures
        gray.width == w,
        gray.height == h,
        gray.pixels@ == p,
{
    reveal_strlit("MJPG");
    reveal_strlit("GREY");
    reveal_strlit("Y8");
    assert("MJPG"@ != "GREY"@ && "MJPG"@ != "Y8"@) by {
        assert("MJPG"@[0] != "GREY"@[0]);
        assert("MJPG"@.len() != "Y8"@.len());
    }
}

} // verus!
