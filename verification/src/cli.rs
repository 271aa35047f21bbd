//! Pieces of the command-line tool that are decisions rather than I/O:
//! option values, report lines, which user is meant, and the bookkeeping
//! of capture loops.
use vstd::prelude::*;
use vstd::string::StringSliceAdditionalSpecFns;
use crate::camera::{
    device_is_at, first_at_path, first_from, ir_device_choice, select_ir_device,
    StreamControl, VideoDeviceInfo,
};
use crate::text::{
    concat, decimal, owned, span_until, split_once_char, str_eq, trim, trim_str, u64_to_decimal,
    utf8_lossy, utf8_lossy_text, views_of,
};

verus! {

/// A command-line error, with the message that is shown.
#[derive(Debug, Clone, PartialEq, Eq)]
pub struct CliError {
    pub message: String,
}

/// A four-character code from an option value, which must be exactly four
/// bytes long.
pub fn parse_fourcc(value: &str) -> (r: Result<[u8; 4], CliError>)
    ensures
        value.spec_bytes().len() == 4 ==> (r matches Ok(code) && code@ == value.spec_bytes()),
        value.spec_bytes().len() != 4 ==> (r matches Err(e) && e.message@
            == "fourcc must be exactly 4 ASCII bytes"@),
{
    let bytes = value.as_bytes();
    if bytes.len() != 4 {
        return Err(CliError { message: owned("fourcc must be exactly 4 ASCII bytes") });
    }
    let code = [bytes[0], bytes[1], bytes[2], bytes[3]];
    assert(code@ =~= bytes@);
    Ok(code)
}

/// The line that describes a device in the camera probe.
pub open spec fn device_line(device: VideoDeviceInfo, primary_symlink: Option<&str>) -> Seq<char> {
    device.path@ + " card=\""@ + device.card@ + "\" driver=\""@ + device.driver@ + "\" bus=\""@
        + device.bus@ + "\" format="@ + device.fourcc@ + " size="@ + decimal(device.width as nat)
        + "x"@ + decimal(device.height as nat) + " mode="@ + (if device.supports_capture {
        "capture"@
    } else {
        "no-capture"@
    }) + "/"@ + (if device.supports_streaming {
        "streaming"@
    } else {
        "no-streaming"@
    }) + " by-path="@ + (match primary_symlink {
        Some(p) => p@,
        None => "-"@,
    })
}

/// The line that describes a device in the camera probe.
pub fn format_device_line(device: &VideoDeviceInfo, primary_symlink: Option<&str>) -> (r: String)
    ensures
        r@ == device_line(*device, primary_symlink),
{
    let mut r = owned(device.path.as_str());
    r.append(" card=\"");
    r.append(device.card.as_str());
    r.append("\" driver=\"");
    r.append(device.driver.as_str());
    r.append("\" bus=\"");
    r.append(device.bus.as_str());
    r.append("\" format=");
    r.append(device.fourcc.as_str());
    r.append(" size=");
    r.append(u64_to_decimal(device.width as u64).as_str());
    r.append("x");
    r.append(u64_to_decimal(device.height as u64).as_str());
    r.append(" mode=");
    r.append(
        if device.supports_capture {
            "capture"
        } else {
            "no-capture"
        },
    );
    r.append("/");
    r.append(
        if device.supports_streaming {
            "streaming"
        } else {
            "no-streaming"
        },
    );
    r.append(" by-path=");
    r.append(
        match primary_symlink {
            Some(p) => p,
            None => "-",
        },
    );
    r
}

/// The control name and value of a `--set-control NAME=VALUE` option: the
/// text before the first `=` and the text after it, each without
/// surrounding whitespace.
pub fn control_assignment(spec: &str) -> (r: Result<(String, String), CliError>)
    ensures
        span_until(spec@, '=') == spec@.len() ==> (r matches Err(e) && e.message@
            == "invalid --set-control value '"@ + spec@ + "'; expected name=value"@),
        span_until(spec@, '=') < spec@.len() ==> (r matches Ok((name, value)) && name@ == trim(
            spec@.subrange(0, span_until(spec@, '=') as int),
        ) && value@ == trim(spec@.subrange(span_until(spec@, '=') + 1int, spec@.len() as int))),
{
    match split_once_char(spec, '=') {
        Some((name, value)) => Ok((trim_str(name.as_str()), trim_str(value.as_str()))),
        None => {
            let mut m = concat("invalid --set-control value '", spec);
            m.append("'; expected name=value");
            Err(CliError { message: m })
        },
    }
}

/// The user that commands act for by default: the invoking user of `sudo`
/// when running as root and `SUDO_USER` is set to a non-blank name, else
/// `USER`, else `unknown`.
pub fn default_target_user(running_as_root: bool, sudo_user: Option<String>, user: Option<String>) -> (r:
    String)
    ensures
        r@ == (if running_as_root && sudo_user is Some && trim(sudo_user->0@).len() > 0 {
            sudo_user->0@
        } else {
            match user {
                Some(u) => u@,
                None => "unknown"@,
            }
        }),
{
    if running_as_root {
        if let Some(s) = sudo_user {
            if !trim_str(s.as_str()).as_str().is_empty() {
                return s;
            }
        }
    }
    match user {
        Some(u) => u,
        None => owned("unknown"),
    }
}

/// The kind of a USB interface from its class and subclass codes.
pub open spec fn usb_interface_kind(class: Seq<char>, subclass: Seq<char>) -> Seq<char> {
    if class == "0e"@ && subclass == "01"@ {
        "VideoStreaming"@
    } else if class == "0e"@ && subclass == "02"@ {
        "VideoControl"@
    } else if class == "fe"@ && subclass == "01"@ {
        "ApplicationSpecific"@
    } else {
        "Unknown"@
    }
}

/// The kind of a USB interface from its class and subclass codes.
pub fn classify_usb_interface(class: &str, subclass: &str) -> (r: String)
    ensures
        r@ == usb_interface_kind(class@, subclass@),
{
    if str_eq(class, "0e") && str_eq(subclass, "01") {
        owned("VideoStreaming")
    } else if str_eq(class, "0e") && str_eq(subclass, "02") {
        owned("VideoControl")
    } else if str_eq(class, "fe") && str_eq(subclass, "01") {
        owned("ApplicationSpecific")
    } else {
        owned("Unknown")
    }
}

/// Counts frames against an optional limit: the frame loops of `verify`
/// and of the authentication provider look at most `limit` frames.
#[derive(Debug, Clone, Copy, PartialEq, Eq, Structural)]
pub struct FrameBudget {
    pub limit: usize,
    pub used: usize,
}

impl FrameBudget {
    pub fn new(limit: usize) -> (b: Self)
        ensures
            b.limit == limit,
            b.used == 0,
    {
        FrameBudget { limit, used: 0 }
    }

    /// Admits the next frame, or stops the stream when the limit is reached.
    pub fn take_frame(&mut self) -> (c: StreamControl)
        ensures
            old(self).used >= old(self).limit ==> c == StreamControl::Stop && *final(self)
                == *old(self),
            old(self).used < old(self).limit ==> c == StreamControl::Continue && final(self).used
                == old(self).used + 1 && final(self).limit == old(self).limit,
    {
        if self.used >= self.limit {
            return StreamControl::Stop;
        }
        self.used = self.used + 1;
        StreamControl::Continue
    }
}

/// The bookkeeping of enrollment: collect `target` face samples, looking at
/// no more than ten frames per sample.
#[derive(Debug, Clone, Copy, PartialEq, Eq, Structural)]
pub struct EnrollCollector {
    pub target: usize,
    pub max_attempts: usize,
    pub collected: usize,
    pub attempts: usize,
}

impl EnrollCollector {
    /// Samples never outnumber the frames looked at, nor the target; frames
    /// looked at never exceed the maximum.
    pub open spec fn wf(self) -> bool {
        &&& self.collected <= self.attempts <= self.max_attempts
        &&& self.collected <= self.target
    }

    /// A collector for `target` samples, with ten frames per sample at most.
    pub fn new(target: usize) -> (c: Self)
        requires
            target <= usize::MAX / 10,
        ensures
            c.wf(),
            c.target == target,
            c.max_attempts == target * 10,
            c.collected == 0,
            c.attempts == 0,
    {
        EnrollCollector { target, max_attempts: target * 10, collected: 0, attempts: 0 }
    }

    /// Before a frame: stop when enough samples are collected or the frames
    /// are used up, else count the frame and go on.
    pub fn before_frame(&mut self) -> (c: StreamControl)
        requires
            old(self).wf(),
        ensures
            final(self).wf(),
            (old(self).collected >= old(self).target || old(self).attempts >= old(self).max_attempts)
                ==> c == StreamControl::Stop && *final(self) == *old(self),
            !(old(self).collected >= old(self).target || old(self).attempts
                >= old(self).max_attempts) ==> c == StreamControl::Continue && *final(self)
                == (EnrollCollector { attempts: (old(self).attempts + 1) as usize, ..*old(self) }),
    {
        if self.collected >= self.target || self.attempts >= self.max_attempts {
            return StreamControl::Stop;
        }
        self.attempts = self.attempts + 1;
        StreamControl::Continue
    }

    /// After a frame that `before_frame` let through: count a sample when a
    /// face was found, and stop once enough are collected.
    pub fn after_frame(&mut self, face_found: bool) -> (c: StreamControl)
        requires
            old(self).wf(),
            old(self).collected < old(self).target,
            old(self).collected < old(self).attempts,
        ensures
            final(self).wf(),
            final(self).target == old(self).target,
            final(self).max_attempts == old(self).max_attempts,
            final(self).attempts == old(self).attempts,
            final(self).collected == old(self).collected + if face_found {
                1int
            } else {
                0int
            },
            c == (if final(self).collected >= final(self).target {
                StreamControl::Stop
            } else {
                StreamControl::Continue
            }),
    {
        if face_found {
            self.collected = self.collected + 1;
        }
        if self.collected >= self.target {
            StreamControl::Stop
        } else {
            StreamControl::Continue
        }
    }

    /// Whether enough samples were collected.
    pub fn complete(&self) -> (r: bool)
        ensures
            r == (self.collected >= self.target),
    {
        self.collected >= self.target
    }
}

/// Counts the frames that the preview has shown and stops after the
/// `--frames` limit, if one is given.
#[derive(Debug, Clone, Copy, PartialEq, Eq)]
pub struct ShownFrames {
    pub limit: Option<usize>,
    pub shown: usize,
}

impl ShownFrames {
    pub fn new(limit: Option<usize>) -> (c: Self)
        ensures
            c.limit == limit,
            c.shown == 0,
    {
        ShownFrames { limit, shown: 0 }
    }

    /// After a frame was shown: count it, and stop once the limit is reached.
    pub fn after_frame(&mut self) -> (c: StreamControl)
        requires
            old(self).shown < usize::MAX,
        ensures
            final(self).limit == old(self).limit,
            final(self).shown == old(self).shown + 1,
            c == (match old(self).limit {
                Some(l) => if final(self).shown >= l {
                    StreamControl::Stop
                } else {
                    StreamControl::Continue
                },
                None => StreamControl::Continue,
            }),
    {
        self.shown = self.shown + 1;
        match self.limit {
            Some(l) => if self.shown >= l {
                StreamControl::Stop
            } else {
                StreamControl::Continue
            },
            None => StreamControl::Continue,
        }
    }
}

/// The number of frames of `--burst`, which must be positive.
pub fn burst_frames(count: usize) -> (r: Result<usize, CliError>)
    ensures
        count == 0 ==> (r matches Err(e) && e.message@ == "--burst must be greater than 0"@),
        count > 0 ==> r == Ok::<usize, CliError>(count),
{
    if count == 0 {
        Err(CliError { message: owned("--burst must be greater than 0") })
    } else {
        Ok(count)
    }
}

/// Whether enrollment may go on for `user`: a stored enrollment is only
/// overwritten with `--replace`.
pub fn enrollment_may_proceed(user: &str, replace: bool, exists: bool) -> (r: Result<(), CliError>)
    ensures
        exists && !replace ==> (r matches Err(e) && e.message@ == "enrollment for '"@ + user@
            + "' already exists; use --replace to overwrite or run `face-authd unenroll --user "@
            + user@ + "` first"@),
        !(exists && !replace) ==> r is Ok,
{
    if exists && !replace {
        let mut m = concat("enrollment for '", user);
        m.append("' already exists; use --replace to overwrite or run `face-authd unenroll --user ");
        m.append(user);
        m.append("` first");
        return Err(CliError { message: m });
    }
    Ok(())
}

fn push_str(v: &mut Vec<String>, s: &str)
    ensures
        views_of(final(v)@) == views_of(old(v)@).push(s@),
{
    v.push(owned(s));
    assert(views_of(v@) =~= views_of(old(v)@).push(s@));
}

/// The arguments that `setup` passes on to `enroll-verify`.
pub fn setup_plan(user: &str, device: Option<&str>) -> (r: Vec<String>)
    ensures
        views_of(r@) == seq!["--user"@, user@, "--replace"@] + (match device {
            Some(d) => seq!["--device"@, d@],
            None => seq![],
        }),
{
    let mut r: Vec<String> = Vec::new();
    push_str(&mut r, "--user");
    push_str(&mut r, user);
    push_str(&mut r, "--replace");
    if let Some(d) = device {
        push_str(&mut r, "--device");
        push_str(&mut r, d);
    }
    assert(views_of(r@) =~= seq!["--user"@, user@, "--replace"@] + (match device {
        Some(d) => seq!["--device"@, d@],
        None => seq![],
    }));
    r
}

/// The arguments that `enroll-verify` passes on to `enroll` and to
/// `verify`; `threshold` is the threshold as text.
pub fn enroll_verify_plan(
    user: &str,
    device: Option<&str>,
    enroll_frames: usize,
    verify_frames: usize,
    threshold: &str,
    replace: bool,
) -> (r: (Vec<String>, Vec<String>))
    ensures
        views_of(r.0@) == seq![
            "--user"@,
            user@,
            "--frames"@,
            decimal(enroll_frames as nat),
            "--threshold"@,
            threshold@,
        ] + (if replace {
            seq!["--replace"@]
        } else {
            seq![]
        }) + (match device {
            Some(d) => seq!["--device"@, d@],
            None => seq![],
        }),
        views_of(r.1@) == seq![
            "--user"@,
            user@,
            "--frames"@,
            decimal(verify_frames as nat),
            "--threshold"@,
            threshold@,
        ] + (match device {
            Some(d) => seq!["--device"@, d@],
            None => seq![],
        }),
{
    let ef = u64_to_decimal(enroll_frames as u64);
    let vf = u64_to_decimal(verify_frames as u64);
    let mut e: Vec<String> = Vec::new();
    push_str(&mut e, "--user");
    push_str(&mut e, user);
    push_str(&mut e, "--frames");
    push_str(&mut e, ef.as_str());
    push_str(&mut e, "--threshold");
    push_str(&mut e, threshold);
    if replace {
        push_str(&mut e, "--replace");
    }
    if let Some(d) = device {
        push_str(&mut e, "--device");
        push_str(&mut e, d);
    }
    let mut v: Vec<String> = Vec::new();
    push_str(&mut v, "--user");
    push_str(&mut v, user);
    push_str(&mut v, "--frames");
    push_str(&mut v, vf.as_str());
    push_str(&mut v, "--threshold");
    push_str(&mut v, threshold);
    if let Some(d) = device {
        push_str(&mut v, "--device");
        push_str(&mut v, d);
    }
    assert(views_of(e@) =~= seq![
        "--user"@,
        user@,
        "--frames"@,
        decimal(enroll_frames as nat),
        "--threshold"@,
        threshold@,
    ] + (if replace {
        seq!["--replace"@]
    } else {
        seq![]
    }) + (match device {
        Some(d) => seq!["--device"@, d@],
        None => seq![],
    }));
    assert(views_of(v@) =~= seq![
        "--user"@,
        user@,
        "--frames"@,
        decimal(verify_frames as nat),
        "--threshold"@,
        threshold@,
    ] + (match device {
        Some(d) => seq!["--device"@, d@],
        None => seq![],
    }));
    (e, v)
}

/// Whether a sysfs directory name is a USB device on bus 3 (not one of its
/// interfaces).
pub fn is_usb_device_dir(name: &str) -> (r: bool)
    ensures
        r == (name@.len() >= 2 && name@.subrange(0, 2) == "3-"@ && !name@.contains(':')),
{
    let v = crate::text::chars_of(name);
    proof {
        reveal_strlit("3-");
    }
    if v.len() < 2 || v[0] != '3' || v[1] != '-' {
        assert(v.len() >= 2 ==> v@.subrange(0, 2) =~= seq![v@[0], v@[1]]);
        return false;
    }
    assert(v@.subrange(0, 2) =~= "3-"@);
    !contains_char(&v, ':')
}

/// Whether a sysfs directory name is an interface of a USB device on bus 3.
pub fn is_usb_interface_dir(name: &str) -> (r: bool)
    ensures
        r == (name@.len() >= 2 && name@.subrange(0, 2) == "3-"@ && name@.contains(':')),
{
    let v = crate::text::chars_of(name);
    proof {
        reveal_strlit("3-");
    }
    if v.len() < 2 || v[0] != '3' || v[1] != '-' {
        assert(v.len() >= 2 ==> v@.subrange(0, 2) =~= seq![v@[0], v@[1]]);
        return false;
    }
    assert(v@.subrange(0, 2) =~= "3-"@);
    contains_char(&v, ':')
}

fn contains_char(v: &Vec<char>, c: char) -> (r: bool)
    ensures
        r == v@.contains(c),
{
    let mut i: usize = 0;
    while i < v.len()
        invariant
            i <= v@.len(),
            forall|j: int| 0 <= j < i ==> v@[j] != c,
        decreases v@.len() - i,
    {
        if v[i] == c {
            return true;
        }
        i = i + 1;
    }
    false
}

/// The device to preview when `--device` names `path`: the known device at
/// that path (by path or symlink) with its path set to `path`, else a
/// device that is assumed to capture and stream in the requested format
/// (640x360 GREY unless given).
pub open spec fn requested_preview_device(
    devices: Seq<VideoDeviceInfo>,
    path: Seq<char>,
    width: Option<u32>,
    height: Option<u32>,
    fourcc: Option<[u8; 4]>,
    d: VideoDeviceInfo,
) -> bool {
    match first_from(0, devices.len() as int, |i: int| device_is_at(devices[i], path)) {
        Some(i) => d.path@ == path && d.symlinks@ == devices[i].symlinks@ && d.driver
            == devices[i].driver && d.card == devices[i].card && d.bus == devices[i].bus
            && d.supports_capture == devices[i].supports_capture && d.supports_streaming
            == devices[i].supports_streaming && d.width == devices[i].width && d.height
            == devices[i].height && d.fourcc == devices[i].fourcc,
        None => d.path@ == path && d.symlinks@.len() == 0 && d.driver@.len() == 0 && d.card@.len()
            == 0 && d.bus@.len() == 0 && d.supports_capture && d.supports_streaming && d.width == (
        match width {
            Some(w) => w,
            None => 640u32,
        }) && d.height == (match height {
            Some(h) => h,
            None => 360u32,
        }) && d.fourcc@ == (match fourcc {
            Some(c) => utf8_lossy_text(c@),
            None => "GREY"@,
        }),
    }
}

/// The device that `preview` shows: the one named by `--device` (see
/// `requested_preview_device`), else the infrared camera, else none.
pub fn preview_device(
    devices: &[VideoDeviceInfo],
    requested: Option<&str>,
    width: Option<u32>,
    height: Option<u32>,
    fourcc: Option<[u8; 4]>,
    preferred: Option<&str>,
) -> (r: Option<VideoDeviceInfo>)
    ensures
        match requested {
            Some(p) => r matches Some(d) && requested_preview_device(
                devices@,
                p@,
                width,
                height,
                fourcc,
                d,
            ),
            None => match ir_device_choice(devices@, preferred) {
                Some(i) => r matches Some(d) && d.same_as(devices@[i]),
                None => r is None,
            },
        },
{
    match requested {
        None => select_ir_device(devices, preferred),
        Some(p) => match first_at_path(devices, p) {
            Some(i) => {
                let mut d = devices[i].clone();
                d.path = owned(p);
                Some(d)
            },
            None => {
                proof {
                    reveal_strlit("");
                }
                let code = match fourcc {
                    Some(c) => utf8_lossy(c.as_slice()),
                    None => owned("GREY"),
                };
                Some(
                    VideoDeviceInfo {
                        path: owned(p),
                        symlinks: Vec::new(),
                        driver: owned(""),
                        card: owned(""),
                        bus: owned(""),
                        supports_capture: true,
                        supports_streaming: true,
                        width: match width {
                            Some(w) => w,
                            None => 640,
                        },
                        height: match height {
                            Some(h) => h,
                            None => 360,
                        },
                        fourcc: code,
                    },
                )
            },
        },
    }
}

} // verus!
