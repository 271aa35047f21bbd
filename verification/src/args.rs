//! Command-line options of the tool's subcommands.
use vstd::prelude::*;
use vstd::utf8::encode_utf8;
use vstd::string::StringSliceAdditionalSpecFns;
use crate::cli::{parse_fourcc, CliError};
use crate::text::{concat, owned, parse_u32, parse_u32_spec, parse_usize, parse_usize_spec, str_eq, views_of};

verus! {

/// The subcommands that act for a user.
#[derive(Debug, Clone, Copy, PartialEq, Eq, Structural)]
pub enum UserCommand {
    Enroll,
    Verify,
    EnrollVerify,
    Setup,
    Unenroll,
}

/// The options of a subcommand that acts for a user.
#[derive(Debug, Clone, PartialEq, Eq)]
pub struct UserOptions {
    /// The user to act for.
    pub user: String,
    /// The camera to use instead of the detected one.
    pub device: Option<String>,
    /// How many frames to sample (enrollment) or to look at (verification).
    pub frames: usize,
    /// How many frames to look at when verifying after enrolling.
    pub verify_frames: usize,
    /// The match threshold as given, already known to be a valid float.
    pub threshold: Option<String>,
    /// Whether an existing enrollment may be overwritten.
    pub replace: bool,
}

/// The options of a user subcommand as plain sequences.
pub struct UserOptionsView {
    pub user: Seq<char>,
    pub device: Option<Seq<char>>,
    pub frames: usize,
    pub verify_frames: usize,
    pub threshold: Option<Seq<char>>,
    pub replace: bool,
}

pub open spec fn opt_view(o: Option<String>) -> Option<Seq<char>> {
    match o {
        Some(s) => Some(s@),
        None => None,
    }
}

impl UserOptions {
    pub open spec fn view_of(self) -> UserOptionsView {
        UserOptionsView {
            user: self.user@,
            device: opt_view(self.device),
            frames: self.frames,
            verify_frames: self.verify_frames,
            threshold: opt_view(self.threshold),
            replace: self.replace,
        }
    }
}

pub open spec fn command_name(kind: UserCommand) -> Seq<char> {
    match kind {
        UserCommand::Enroll => "enroll"@,
        UserCommand::Verify => "verify"@,
        UserCommand::EnrollVerify => "enroll-verify"@,
        UserCommand::Setup => "setup"@,
        UserCommand::Unenroll => "unenroll"@,
    }
}

/// The options that each user subcommand takes, besides `--user`.
pub open spec fn takes_device(kind: UserCommand) -> bool {
    kind != UserCommand::Unenroll
}

pub open spec fn takes_frames(kind: UserCommand) -> bool {
    kind == UserCommand::Enroll || kind == UserCommand::Verify || kind == UserCommand::EnrollVerify
}

pub open spec fn takes_verify_frames(kind: UserCommand) -> bool {
    kind == UserCommand::EnrollVerify
}

pub open spec fn takes_threshold(kind: UserCommand) -> bool {
    takes_frames(kind)
}

pub open spec fn takes_replace(kind: UserCommand) -> bool {
    kind == UserCommand::Enroll || kind == UserCommand::EnrollVerify
}

/// The options before any argument is read.
pub open spec fn user_defaults(kind: UserCommand, user: Seq<char>) -> UserOptionsView {
    UserOptionsView {
        user,
        device: None,
        frames: if kind == UserCommand::Verify {
            10
        } else {
            5
        },
        verify_frames: 10,
        threshold: None,
        replace: false,
    }
}

/// The options after the arguments from `i` on, or the message of the first
/// error. `floats[j]` tells whether `args[j]` parses as a float.
pub open spec fn user_args_from(
    kind: UserCommand,
    args: Seq<Seq<char>>,
    floats: Seq<bool>,
    i: int,
    st: UserOptionsView,
) -> Result<UserOptionsView, Seq<char>>
    decreases args.len() - i,
{
    if i >= args.len() || i < 0 {
        Ok(st)
    } else {
        let a = args[i];
        let has_value = i + 1 < args.len();
        if a == "--user"@ {
            if !has_value {
                Err("--user requires a value"@)
            } else {
                user_args_from(kind, args, floats, i + 2, UserOptionsView { user: args[i + 1], ..st })
            }
        } else if a == "--device"@ && takes_device(kind) {
            if !has_value {
                Err("--device requires a path"@)
            } else {
                user_args_from(
                    kind,
                    args,
                    floats,
                    i + 2,
                    UserOptionsView { device: Some(args[i + 1]), ..st },
                )
            }
        } else if a == "--frames"@ && takes_frames(kind) {
            if !has_value {
                Err("--frames requires a value"@)
            } else {
                match parse_usize_spec(args[i + 1]) {
                    None => Err("--frames must be a positive integer"@),
                    Some(n) => user_args_from(
                        kind,
                        args,
                        floats,
                        i + 2,
                        UserOptionsView { frames: n, ..st },
                    ),
                }
            }
        } else if a == "--verify-frames"@ && takes_verify_frames(kind) {
            if !has_value {
                Err("--verify-frames requires a value"@)
            } else {
                match parse_usize_spec(args[i + 1]) {
                    None => Err("--verify-frames must be a positive integer"@),
                    Some(n) => user_args_from(
                        kind,
                        args,
                        floats,
                        i + 2,
                        UserOptionsView { verify_frames: n, ..st },
                    ),
                }
            }
        } else if a == "--threshold"@ && takes_threshold(kind) {
            if !has_value {
                Err("--threshold requires a value"@)
            } else if !floats[i + 1] {
                Err("--threshold must be a float"@)
            } else {
                user_args_from(
                    kind,
                    args,
                    floats,
                    i + 2,
                    UserOptionsView { threshold: Some(args[i + 1]), ..st },
                )
            }
        } else if a == "--replace"@ && takes_replace(kind) {
            user_args_from(kind, args, floats, i + 1, UserOptionsView { replace: true, ..st })
        } else {
            Err("unknown "@ + command_name(kind) + " argument: "@ + a)
        }
    }
}

fn command_name_exec(kind: UserCommand) -> (r: &'static str)
    ensures
        r@ == command_name(kind),
{
    match kind {
        UserCommand::Enroll => "enroll",
        UserCommand::Verify => "verify",
        UserCommand::EnrollVerify => "enroll-verify",
        UserCommand::Setup => "setup",
        UserCommand::Unenroll => "unenroll",
    }
}

fn cli_error(message: &str) -> (e: CliError)
    ensures
        e.message@ == message@,
{
    CliError { message: owned(message) }
}

/// The options of a user subcommand from its arguments. `floats[j]` tells
/// whether `args[j]` parses as a float, which `--threshold` requires;
/// `default_user` is the user acted for unless `--user` is given.
pub fn parse_user_args(
    kind: UserCommand,
    args: &[String],
    floats: &[bool],
    default_user: String,
) -> (r: Result<UserOptions, CliError>)
    requires
        floats@.len() == args@.len(),
    ensures
        match user_args_from(kind, views_of(args@), floats@, 0, user_defaults(kind, default_user@)) {
            Ok(v) => r matches Ok(o) && o.view_of() == v,
            Err(m) => r matches Err(e) && e.message@ == m,
        },
{
    let ghost av = views_of(args@);
    let mut st = UserOptions {
        user: default_user,
        device: None,
        frames: if matches!(kind, UserCommand::Verify) {
            10
        } else {
            5
        },
        verify_frames: 10,
        threshold: None,
        replace: false,
    };
    assert(st.view_of() == user_defaults(kind, default_user@));
    let n = args.len();
    let mut i: usize = 0;
    while i < n
        invariant
            n == args@.len(),
            floats@.len() == n,
            av == views_of(args@),
            i <= n,
            user_args_from(kind, av, floats@, 0, user_defaults(kind, default_user@))
                == user_args_from(kind, av, floats@, i as int, st.view_of()),
        decreases n - i,
    {
        let a = args[i].as_str();
        let has_value = i + 1 < n;
        assert(av[i as int] == a@);
        if has_value {
            assert(av[i + 1] == args@[i + 1]@);
        }
        if str_eq(a, "--user") {
            if !has_value {
                return Err(cli_error("--user requires a value"));
            }
            st.user = args[i + 1].clone();
            i = i + 2;
        } else if str_eq(a, "--device") && !matches!(kind, UserCommand::Unenroll) {
            if !has_value {
                return Err(cli_error("--device requires a path"));
            }
            st.device = Some(args[i + 1].clone());
            i = i + 2;
        } else if str_eq(a, "--frames") && (matches!(kind, UserCommand::Enroll) || matches!(
            kind,
            UserCommand::Verify,
        ) || matches!(kind, UserCommand::EnrollVerify)) {
            if !has_value {
                return Err(cli_error("--frames requires a value"));
            }
            match parse_usize(args[i + 1].as_str()) {
                None => return Err(cli_error("--frames must be a positive integer")),
                Some(v) => {
                    st.frames = v;
                },
            }
            i = i + 2;
        } else if str_eq(a, "--verify-frames") && matches!(kind, UserCommand::EnrollVerify) {
            if !has_value {
                return Err(cli_error("--verify-frames requires a value"));
            }
            match parse_usize(args[i + 1].as_str()) {
                None => return Err(cli_error("--verify-frames must be a positive integer")),
                Some(v) => {
                    st.verify_frames = v;
                },
            }
            i = i + 2;
        } else if str_eq(a, "--threshold") && (matches!(kind, UserCommand::Enroll) || matches!(
            kind,
            UserCommand::Verify,
        ) || matches!(kind, UserCommand::EnrollVerify)) {
            if !has_value {
                return Err(cli_error("--threshold requires a value"));
            }
            if !floats[i + 1] {
                return Err(cli_error("--threshold must be a float"));
            }
            st.threshold = Some(args[i + 1].clone());
            i = i + 2;
        } else if str_eq(a, "--replace") && (matches!(kind, UserCommand::Enroll) || matches!(
            kind,
            UserCommand::EnrollVerify,
        )) {
            st.replace = true;
            i = i + 1;
        } else {
            let mut m = concat("unknown ", command_name_exec(kind));
            m.append(" argument: ");
            m.append(a);
            return Err(CliError { message: m });
        }
    }
    Ok(st)
}

/// What a subcommand with a help option was asked to do.
#[derive(Debug, Clone, PartialEq, Eq)]
pub enum Invocation<T> {
    /// Print the subcommand's usage.
    Help,
    /// Run with these options.
    Run(T),
}

/// The options of the camera probe.
#[derive(Debug, Clone, PartialEq, Eq)]
pub struct ProbeOptions {
    pub capture: bool,
    pub device: Option<String>,
    pub width: Option<u32>,
    pub height: Option<u32>,
    pub fourcc: Option<[u8; 4]>,
    pub output: Option<String>,
    pub output_gray: Option<String>,
    pub analyze_gray: bool,
    pub burst: Option<usize>,
    pub list_controls: bool,
    pub set_controls: Vec<String>,
}

/// The options of the camera probe as plain sequences.
pub struct ProbeView {
    pub capture: bool,
    pub device: Option<Seq<char>>,
    pub width: Option<u32>,
    pub height: Option<u32>,
    pub fourcc: Option<Seq<u8>>,
    pub output: Option<Seq<char>>,
    pub output_gray: Option<Seq<char>>,
    pub analyze_gray: bool,
    pub burst: Option<usize>,
    pub list_controls: bool,
    pub set_controls: Seq<Seq<char>>,
}

pub open spec fn fourcc_view(f: Option<[u8; 4]>) -> Option<Seq<u8>> {
    match f {
        Some(c) => Some(c@),
        None => None,
    }
}

impl ProbeOptions {
    pub open spec fn view_of(self) -> ProbeView {
        ProbeView {
            capture: self.capture,
            device: opt_view(self.device),
            width: self.width,
            height: self.height,
            fourcc: fourcc_view(self.fourcc),
            output: opt_view(self.output),
            output_gray: opt_view(self.output_gray),
            analyze_gray: self.analyze_gray,
            burst: self.burst,
            list_controls: self.list_controls,
            set_controls: views_of(self.set_controls@),
        }
    }
}

/// The probe options before any argument is read.
pub open spec fn probe_defaults(device: Option<Seq<char>>) -> ProbeView {
    ProbeView {
        capture: false,
        device,
        width: None,
        height: None,
        fourcc: None,
        output: None,
        output_gray: None,
        analyze_gray: false,
        burst: None,
        list_controls: false,
        set_controls: seq![],
    }
}

/// The probe options after the arguments from `i` on (`None` for help), or
/// the message of the first error.
pub open spec fn probe_args_from(args: Seq<Seq<char>>, i: int, st: ProbeView) -> Result<
    Option<ProbeView>,
    Seq<char>,
>
    decreases args.len() - i,
{
    if i >= args.len() || i < 0 {
        Ok(Some(st))
    } else {
        let a = args[i];
        let has_value = i + 1 < args.len();
        if a == "--capture"@ {
            probe_args_from(args, i + 1, ProbeView { capture: true, ..st })
        } else if a == "--device"@ {
            if !has_value {
                Err("missing value for --device; expected a /dev/video* or /dev/v4l/by-path path"@)
            } else {
                probe_args_from(args, i + 2, ProbeView { device: Some(args[i + 1]), ..st })
            }
        } else if a == "--width"@ {
            if !has_value {
                Err("missing value for --width; expected an integer"@)
            } else {
                match parse_u32_spec(args[i + 1]) {
                    None => Err("invalid integer for --width"@),
                    Some(w) => probe_args_from(args, i + 2, ProbeView { width: Some(w), ..st }),
                }
            }
        } else if a == "--height"@ {
            if !has_value {
                Err("missing value for --height; expected an integer"@)
            } else {
                match parse_u32_spec(args[i + 1]) {
                    None => Err("invalid integer for --height"@),
                    Some(h) => probe_args_from(args, i + 2, ProbeView { height: Some(h), ..st }),
                }
            }
        } else if a == "--fourcc"@ {
            if !has_value {
                Err("missing value for --fourcc; expected a 4-character code such as YUYV or MJPG"@)
            } else if encode_utf8(args[i + 1]).len() != 4 {
                Err("fourcc must be exactly 4 ASCII bytes"@)
            } else {
                probe_args_from(
                    args,
                    i + 2,
                    ProbeView { fourcc: Some(encode_utf8(args[i + 1])), ..st },
                )
            }
        } else if a == "--output"@ {
            if !has_value {
                Err("missing value for --output; expected a filesystem path"@)
            } else {
                probe_args_from(args, i + 2, ProbeView { output: Some(args[i + 1]), ..st })
            }
        } else if a == "--output-gray"@ {
            if !has_value {
                Err("missing value for --output-gray; expected a filesystem path"@)
            } else {
                probe_args_from(args, i + 2, ProbeView { output_gray: Some(args[i + 1]), ..st })
            }
        } else if a == "--analyze-gray"@ {
            probe_args_from(args, i + 1, ProbeView { analyze_gray: true, ..st })
        } else if a == "--burst"@ {
            if !has_value {
                Err("missing value for --burst; expected a positive integer"@)
            } else {
                match parse_usize_spec(args[i + 1]) {
                    None => Err("invalid integer for --burst"@),
                    Some(n) => probe_args_from(args, i + 2, ProbeView { burst: Some(n), ..st }),
                }
            }
        } else if a == "--list-controls"@ {
            probe_args_from(args, i + 1, ProbeView { list_controls: true, ..st })
        } else if a == "--set-control"@ {
            if !has_value {
                Err("missing value for --set-control; expected name=value"@)
            } else {
                probe_args_from(
                    args,
                    i + 2,
                    ProbeView { set_controls: st.set_controls.push(args[i + 1]), ..st },
                )
            }
        } else if a == "-h"@ || a == "--help"@ {
            Ok(None)
        } else {
            Err("unknown probe-cameras argument: "@ + a)
        }
    }
}

/// The options of `probe-cameras` from its arguments; `default_device` is
/// the preferred device unless `--device` is given.
pub fn parse_probe_args(args: &[String], default_device: Option<String>) -> (r: Result<
    Invocation<ProbeOptions>,
    CliError,
>)
    ensures
        match probe_args_from(views_of(args@), 0, probe_defaults(opt_view(default_device))) {
            Ok(Some(v)) => r matches Ok(Invocation::Run(o)) && o.view_of() == v,
            Ok(None) => r matches Ok(Invocation::Help),
            Err(m) => r matches Err(e) && e.message@ == m,
        },
{
    let ghost av = views_of(args@);
    let mut st = ProbeOptions {
        capture: false,
        device: default_device,
        width: None,
        height: None,
        fourcc: None,
        output: None,
        output_gray: None,
        analyze_gray: false,
        burst: None,
        list_controls: false,
        set_controls: Vec::new(),
    };
    assert(st.view_of().set_controls =~= Seq::<Seq<char>>::empty());
    let n = args.len();
    let mut i: usize = 0;
    while i < n
        invariant
            n == args@.len(),
            av == views_of(args@),
            i <= n,
            probe_args_from(av, 0, probe_defaults(opt_view(default_device))) == probe_args_from(
                av,
                i as int,
                st.view_of(),
            ),
        decreases n - i,
    {
        let a = args[i].as_str();
        let has_value = i + 1 < n;
        assert(av[i as int] == a@);
        if has_value {
            assert(av[i + 1] == args@[i + 1]@);
        }
        if str_eq(a, "--capture") {
            st.capture = true;
            i = i + 1;
        } else if str_eq(a, "--device") {
            if !has_value {
                return Err(
                    cli_error(
                        "missing value for --device; expected a /dev/video* or /dev/v4l/by-path path",
                    ),
                );
            }
            st.device = Some(args[i + 1].clone());
            i = i + 2;
        } else if str_eq(a, "--width") {
            if !has_value {
                return Err(cli_error("missing value for --width; expected an integer"));
            }
            match parse_u32(args[i + 1].as_str()) {
                None => return Err(cli_error("invalid integer for --width")),
                Some(w) => {
                    st.width = Some(w);
                },
            }
            i = i + 2;
        } else if str_eq(a, "--height") {
            if !has_value {
                return Err(cli_error("missing value for --height; expected an integer"));
            }
            match parse_u32(args[i + 1].as_str()) {
                None => return Err(cli_error("invalid integer for --height")),
                Some(h) => {
                    st.height = Some(h);
                },
            }
            i = i + 2;
        } else if str_eq(a, "--fourcc") {
            if !has_value {
                return Err(
                    cli_error(
                        "missing value for --fourcc; expected a 4-character code such as YUYV or MJPG",
                    ),
                );
            }
            match parse_fourcc(args[i + 1].as_str()) {
                Err(e) => return Err(e),
                Ok(code) => {
                    st.fourcc = Some(code);
                },
            }
            i = i + 2;
        } else if str_eq(a, "--output") {
            if !has_value {
                return Err(cli_error("missing value for --output; expected a filesystem path"));
            }
            st.output = Some(args[i + 1].clone());
            i = i + 2;
        } else if str_eq(a, "--output-gray") {
            if !has_value {
                return Err(
                    cli_error("missing value for --output-gray; expected a filesystem path"),
                );
            }
            st.output_gray = Some(args[i + 1].clone());
            i = i + 2;
        } else if str_eq(a, "--analyze-gray") {
            st.analyze_gray = true;
            i = i + 1;
        } else if str_eq(a, "--burst") {
            if !has_value {
                return Err(cli_error("missing value for --burst; expected a positive integer"));
            }
            match parse_usize(args[i + 1].as_str()) {
                None => return Err(cli_error("invalid integer for --burst")),
                Some(b) => {
                    st.burst = Some(b);
                },
            }
            i = i + 2;
        } else if str_eq(a, "--list-controls") {
            st.list_controls = true;
            i = i + 1;
        } else if str_eq(a, "--set-control") {
            if !has_value {
                return Err(cli_error("missing value for --set-control; expected name=value"));
            }
            let ghost before = st.set_controls@;
            st.set_controls.push(args[i + 1].clone());
            assert(views_of(st.set_controls@) =~= views_of(before).push(args@[i + 1]@));
            i = i + 2;
        } else if str_eq(a, "-h") || str_eq(a, "--help") {
            return Ok(Invocation::Help);
        } else {
            return Err(CliError { message: concat("unknown probe-cameras argument: ", a) });
        }
    }
    Ok(Invocation::Run(st))
}

/// The options of the live preview.
#[derive(Debug, Clone, PartialEq, Eq)]
pub struct PreviewOptions {
    pub device: Option<String>,
    pub width: Option<u32>,
    pub height: Option<u32>,
    pub fourcc: Option<[u8; 4]>,
    pub detect: bool,
    pub max_frames: Option<usize>,
}

/// The preview options as plain sequences.
pub struct PreviewView {
    pub device: Option<Seq<char>>,
    pub width: Option<u32>,
    pub height: Option<u32>,
    pub fourcc: Option<Seq<u8>>,
    pub detect: bool,
    pub max_frames: Option<usize>,
}

impl PreviewOptions {
    pub open spec fn view_of(self) -> PreviewView {
        PreviewView {
            device: opt_view(self.device),
            width: self.width,
            height: self.height,
            fourcc: fourcc_view(self.fourcc),
            detect: self.detect,
            max_frames: self.max_frames,
        }
    }
}

pub open spec fn preview_defaults() -> PreviewView {
    PreviewView {
        device: None,
        width: None,
        height: None,
        fourcc: None,
        detect: false,
        max_frames: None,
    }
}

/// The preview options after the arguments from `i` on (`None` for help),
/// or the message of the first error.
pub open spec fn preview_args_from(args: Seq<Seq<char>>, i: int, st: PreviewView) -> Result<
    Option<PreviewView>,
    Seq<char>,
>
    decreases args.len() - i,
{
    if i >= args.len() || i < 0 {
        Ok(Some(st))
    } else {
        let a = args[i];
        let has_value = i + 1 < args.len();
        if a == "--device"@ {
            if !has_value {
                Err("--device requires a path"@)
            } else {
                preview_args_from(args, i + 2, PreviewView { device: Some(args[i + 1]), ..st })
            }
        } else if a == "--width"@ {
            if !has_value {
                Err("--width requires a value"@)
            } else {
                match parse_u32_spec(args[i + 1]) {
                    None => Err("--width must be an integer"@),
                    Some(w) => preview_args_from(args, i + 2, PreviewView { width: Some(w), ..st }),
                }
            }
        } else if a == "--height"@ {
            if !has_value {
                Err("--height requires a value"@)
            } else {
                match parse_u32_spec(args[i + 1]) {
                    None => Err("--height must be an integer"@),
                    Some(h) => preview_args_from(args, i + 2, PreviewView { height: Some(h), ..st }),
                }
            }
        } else if a == "--fourcc"@ {
            if !has_value {
                Err("--fourcc requires a 4-byte code"@)
            } else if encode_utf8(args[i + 1]).len() != 4 {
                Err("fourcc must be exactly 4 ASCII bytes"@)
            } else {
                preview_args_from(
                    args,
                    i + 2,
                    PreviewView { fourcc: Some(encode_utf8(args[i + 1])), ..st },
                )
            }
        } else if a == "--detect"@ {
            preview_args_from(args, i + 1, PreviewView { detect: true, ..st })
        } else if a == "--frames"@ {
            if !has_value {
                Err("--frames requires a value"@)
            } else {
                match parse_usize_spec(args[i + 1]) {
                    None => Err("--frames must be a positive integer"@),
                    Some(n) => preview_args_from(
                        args,
                        i + 2,
                        PreviewView { max_frames: Some(n), ..st },
                    ),
                }
            }
        } else if a == "-h"@ || a == "--help"@ {
            Ok(None)
        } else {
            Err("unknown preview argument: "@ + a)
        }
    }
}

/// The options of `preview` from its arguments.
pub fn parse_preview_args(args: &[String]) -> (r: Result<Invocation<PreviewOptions>, CliError>)
    ensures
        match preview_args_from(views_of(args@), 0, preview_defaults()) {
            Ok(Some(v)) => r matches Ok(Invocation::Run(o)) && o.view_of() == v,
            Ok(None) => r matches Ok(Invocation::Help),
            Err(m) => r matches Err(e) && e.message@ == m,
        },
{
    let ghost av = views_of(args@);
    let mut st = PreviewOptions {
        device: None,
        width: None,
        height: None,
        fourcc: None,
        detect: false,
        max_frames: None,
    };
    let n = args.len();
    let mut i: usize = 0;
    while i < n
        invariant
            n == args@.len(),
            av == views_of(args@),
            i <= n,
            preview_args_from(av, 0, preview_defaults()) == preview_args_from(
                av,
                i as int,
                st.view_of(),
            ),
        decreases n - i,
    {
        let a = args[i].as_str();
        let has_value = i + 1 < n;
        assert(av[i as int] == a@);
        if has_value {
            assert(av[i + 1] == args@[i + 1]@);
        }
        if str_eq(a, "--device") {
            if !has_value {
                return Err(cli_error("--device requires a path"));
            }
            st.device = Some(args[i + 1].clone());
            i = i + 2;
        } else if str_eq(a, "--width") {
            if !has_value {
                return Err(cli_error("--width requires a value"));
            }
            match parse_u32(args[i + 1].as_str()) {
                None => return Err(cli_error("--width must be an integer")),
                Some(w) => {
                    st.width = Some(w);
                },
            }
            i = i + 2;
        } else if str_eq(a, "--height") {
            if !has_value {
                return Err(cli_error("--height requires a value"));
            }
            match parse_u32(args[i + 1].as_str()) {
                None => return Err(cli_error("--height must be an integer")),
                Some(h) => {
                    st.height = Some(h);
                },
            }
            i = i + 2;
        } else if str_eq(a, "--fourcc") {
            if !has_value {
                return Err(cli_error("--fourcc requires a 4-byte code"));
            }
            match parse_fourcc(args[i + 1].as_str()) {
                Err(e) => return Err(e),
                Ok(code) => {
                    st.fourcc = Some(code);
                },
            }
            i = i + 2;
        } else if str_eq(a, "--detect") {
            st.detect = true;
            i = i + 1;
        } else if str_eq(a, "--frames") {
            if !has_value {
                return Err(cli_error("--frames requires a value"));
            }
            match parse_usize(args[i + 1].as_str()) {
                None => return Err(cli_error("--frames must be a positive integer")),
                Some(f) => {
                    st.max_frames = Some(f);
                },
            }
            i = i + 2;
        } else if str_eq(a, "-h") || str_eq(a, "--help") {
            return Ok(Invocation::Help);
        } else {
            return Err(CliError { message: concat("unknown preview argument: ", a) });
        }
    }
    Ok(Invocation::Run(st))
}

/// What the tool was asked to do, by its first argument.
#[derive(Debug, Clone, Copy, PartialEq, Eq, Structural)]
pub enum Subcommand {
    ProbeCameras,
    HardwareSurvey,
    Enroll,
    Setup,
    EnrollVerify,
    Enrolled,
    Unenroll,
    Preview,
    Verify,
    Help,
    /// No subcommand: run the authentication daemon.
    Daemon,
}

/// The subcommand named by the first argument.
pub open spec fn subcommand_spec(first: Option<Seq<char>>) -> Subcommand {
    match first {
        None => Subcommand::Daemon,
        Some(a) => if a == "probe-cameras"@ {
            Subcommand::ProbeCameras
        } else if a == "hardware-survey"@ {
            Subcommand::HardwareSurvey
        } else if a == "enroll"@ {
            Subcommand::Enroll
        } else if a == "setup"@ {
            Subcommand::Setup
        } else if a == "enroll-verify"@ || a == "onboard"@ {
            Subcommand::EnrollVerify
        } else if a == "enrolled"@ {
            Subcommand::Enrolled
        } else if a == "unenroll"@ {
            Subcommand::Unenroll
        } else if a == "preview"@ {
            Subcommand::Preview
        } else if a == "verify"@ {
            Subcommand::Verify
        } else if a == "-h"@ || a == "--help"@ || a == "help"@ {
            Subcommand::Help
        } else {
            Subcommand::Daemon
        },
    }
}

/// The subcommand named by the first argument; anything unrecognised runs
/// the daemon.
pub fn subcommand(first: Option<&str>) -> (r: Subcommand)
    ensures
        r == subcommand_spec(match first {
            Some(a) => Some(a@),
            None => None,
        }),
{
    let a = match first {
        None => return Subcommand::Daemon,
        Some(a) => a,
    };
    if str_eq(a, "probe-cameras") {
        Subcommand::ProbeCameras
    } else if str_eq(a, "hardware-survey") {
        Subcommand::HardwareSurvey
    } else if str_eq(a, "enroll") {
        Subcommand::Enroll
    } else if str_eq(a, "setup") {
        Subcommand::Setup
    } else if str_eq(a, "enroll-verify") || str_eq(a, "onboard") {
        Subcommand::EnrollVerify
    } else if str_eq(a, "enrolled") {
        Subcommand::Enrolled
    } else if str_eq(a, "unenroll") {
        Subcommand::Unenroll
    } else if str_eq(a, "preview") {
        Subcommand::Preview
    } else if str_eq(a, "verify") {
        Subcommand::Verify
    } else if str_eq(a, "-h") || str_eq(a, "--help") || str_eq(a, "help") {
        Subcommand::Help
    } else {
        Subcommand::Daemon
    }
}

} // verus!
