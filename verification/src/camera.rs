//! V4L2 devices and frames as plain values: choosing a capture device,
//! turning captured frames into 8-bit grayscale, and the files that frames
//! are saved as.
use vstd::prelude::*;

use vstd::utf8::{decode_utf8, valid_utf8};
use crate::text::{
    span_until, ascii_bytes, concat, decimal, decimal_bytes, lemma_text_before_irreflexive,
    lemma_text_before_total, lemma_text_before_transitive, owned, str_before, str_eq, text_before, trim, trim_str,
    u128_to_decimal,
};

verus! {

/// A video device found on the system. Paths are written as text.
#[derive(Debug, PartialEq, Eq)]
pub struct VideoDeviceInfo {
    pub path: String,
    pub symlinks: Vec<String>,
    pub driver: String,
    pub card: String,
    pub bus: String,
    pub supports_capture: bool,
    pub supports_streaming: bool,
    pub width: u32,
    pub height: u32,
    pub fourcc: String,
}

/// Copies a list of strings.
pub fn clone_strings(v: &Vec<String>) -> (r: Vec<String>)
    ensures
        r@ == v@,
{
    let mut r: Vec<String> = Vec::new();
    let mut i: usize = 0;
    while i < v.len()
        invariant
            i <= v@.len(),
            r@ =~= v@.subrange(0, i as int),
        decreases v@.len() - i,
    {
        r.push(v[i].clone());
        i = i + 1;
    }
    assert(v@.subrange(0, v@.len() as int) =~= v@);
    r
}

impl VideoDeviceInfo {
    /// Field by field equality, the symlinks compared as sequences.
    pub open spec fn same_as(self, other: VideoDeviceInfo) -> bool {
        &&& self.path == other.path
        &&& self.symlinks@ == other.symlinks@
        &&& self.driver == other.driver
        &&& self.card == other.card
        &&& self.bus == other.bus
        &&& self.supports_capture == other.supports_capture
        &&& self.supports_streaming == other.supports_streaming
        &&& self.width == other.width
        &&& self.height == other.height
        &&& self.fourcc == other.fourcc
    }
}

impl Clone for VideoDeviceInfo {
    fn clone(&self) -> (r: Self)
        ensures
            r.same_as(*self),
    {
        VideoDeviceInfo {
            path: self.path.clone(),
            symlinks: clone_strings(&self.symlinks),
            driver: self.driver.clone(),
            card: self.card.clone(),
            bus: self.bus.clone(),
            supports_capture: self.supports_capture,
            supports_streaming: self.supports_streaming,
            width: self.width,
            height: self.height,
            fourcc: self.fourcc.clone(),
        }
    }
}

/// What to ask of a device before capturing. Unset fields keep the device's
/// current format.
#[derive(Debug, Clone, Copy, PartialEq, Eq)]
pub struct CaptureConfig {
    pub width: Option<u32>,
    pub height: Option<u32>,
    pub fourcc: Option<[u8; 4]>,
    pub buffers: u32,
}

impl Default for CaptureConfig {
    fn default() -> (c: Self)
        ensures
            c.width is None,
            c.height is None,
            c.fourcc is None,
            c.buffers == 4,
    {
        CaptureConfig { width: None, height: None, fourcc: None, buffers: 4 }
    }
}

/// A device's pixel format: width, height and four-character code.
#[derive(Debug, Clone, Copy, PartialEq, Eq)]
pub struct PixelFormatRequest {
    pub width: u32,
    pub height: u32,
    pub fourcc: [u8; 4],
}

/// The format to set on a device: its current format with the fields that
/// `config` sets replaced.
pub fn requested_format(current: PixelFormatRequest, config: &CaptureConfig) -> (f:
    PixelFormatRequest)
    ensures
        f.width == (match config.width {
            Some(w) => w,
            None => current.width,
        }),
        f.height == (match config.height {
            Some(h) => h,
            None => current.height,
        }),
        f.fourcc@ == (match config.fourcc {
            Some(c) => c@,
            None => current.fourcc@,
        }),
{
    let mut f = current;
    if let Some(width) = config.width {
        f.width = width;
    }
    if let Some(height) = config.height {
        f.height = height;
    }
    if let Some(fourcc) = config.fourcc {
        f.fourcc = fourcc;
    }
    f
}

/// One frame as the device delivered it.
#[derive(Debug, Clone, PartialEq, Eq)]
pub struct CapturedFrame {
    pub device: String,
    pub width: u32,
    pub height: u32,
    pub fourcc: String,
    pub sequence: u32,
    pub bytes: Vec<u8>,
}

/// An 8-bit grayscale image, row by row.
#[derive(Debug, Clone, PartialEq, Eq)]
pub struct GrayscaleFrame {
    pub width: u32,
    pub height: u32,
    pub pixels: Vec<u8>,
}

/// Whether a frame stream goes on after the current frame.
#[derive(Debug, Clone, Copy, PartialEq, Eq, Structural)]
pub enum StreamControl {
    Continue,
    Stop,
}

/// The pixel layouts that a JPEG decodes to.
#[derive(Debug, Clone, Copy, PartialEq, Eq, Structural)]
pub enum JpegPixelKind {
    L8,
    L16,
    Rgb24,
    Cmyk32,
}

/// Why a frame could not be captured, converted or encoded.
#[derive(Debug, Clone, PartialEq, Eq)]
pub enum CameraError {
    /// A capture of one frame delivered none.
    NoFrames,
    /// A GREY frame holds fewer bytes than width times height.
    GreyBufferTooSmall { got: usize, expected: u128 },
    /// A YUYV frame holds fewer bytes than twice width times height.
    YuyvBufferTooSmall { got: usize, expected: u128 },
    /// The JPEG decoder rejected an MJPG frame, with its reason.
    JpegDecode { cause: String },
    /// The JPEG decoder gave no image metadata.
    JpegMetadataMissing,
    /// The JPEG decodes to 16-bit luminance.
    UnsupportedJpegFormat,
    /// The frame's four-character code is none of the supported ones.
    UnsupportedPixelFormat { fourcc: String },
    /// A grayscale frame holds a number of pixels other than width times height.
    GrayscaleSizeMismatch { got: usize, expected: u128 },
}

// ---------------------------------------------------------------------------
// Choosing a device
// ---------------------------------------------------------------------------

/// The texts between the `/` separators of a path, empty ones included.
pub open spec fn slash_parts(s: Seq<char>) -> Seq<Seq<char>>
    decreases s.len(),
{
    let k = span_until(s, '/');
    if k >= s.len() {
        seq![s]
    } else {
        seq![s.subrange(0, k as int)] + slash_parts(s.subrange(k + 1int, s.len() as int))
    }
}

/// The parts that are components: empty parts and `.` parts are left out,
/// but for a `.` that begins a relative path (`lead_dot`).
pub open spec fn named_parts(parts: Seq<Seq<char>>, lead_dot: bool) -> Seq<Seq<char>>
    decreases parts.len(),
{
    if parts.len() == 0 {
        seq![]
    } else {
        let rest = named_parts(parts.drop_first(), false);
        if parts[0].len() == 0 || (parts[0] == seq!['.'] && !lead_dot) {
            rest
        } else {
            seq![parts[0]] + rest
        }
    }
}

/// The components of a path as `Path::components` gives them on Unix, each
/// as text: `/` for the root, `.` for a current directory that begins a
/// relative path, `..` for a parent, the name otherwise. Repeated and
/// trailing separators and other `.` parts give no component.
pub open spec fn path_components(s: Seq<char>) -> Seq<Seq<char>> {
    if s.len() > 0 && s[0] == '/' {
        seq![seq!['/']] + named_parts(slash_parts(s), false)
    } else {
        named_parts(slash_parts(s), true)
    }
}

/// Whether two paths are equal as `Path`s: component by component.
pub open spec fn same_path(a: Seq<char>, b: Seq<char>) -> bool {
    path_components(a) == path_components(b)
}

/// The texts of character vectors.
pub open spec fn char_views(v: Seq<Vec<char>>) -> Seq<Seq<char>> {
    v.map_values(|p: Vec<char>| p@)
}

fn chars_between(v: &Vec<char>, a: usize, b: usize) -> (r: Vec<char>)
    requires
        a <= b <= v@.len(),
    ensures
        r@ == v@.subrange(a as int, b as int),
{
    let mut r: Vec<char> = Vec::new();
    let mut i: usize = a;
    while i < b
        invariant
            a <= i <= b <= v@.len(),
            r@ =~= v@.subrange(a as int, i as int),
        decreases b - i,
    {
        r.push(v[i]);
        i = i + 1;
    }
    r
}

/// The components of a path, each as characters.
fn path_components_of(s: &str) -> (r: Vec<Vec<char>>)
    ensures
        char_views(r@) == path_components(s@),
{
    let v = crate::text::chars_of(s);
    let n: usize = v.len();
    let rooted = n > 0 && v[0] == '/';
    let mut out: Vec<Vec<char>> = Vec::new();
    if rooted {
        let mut root: Vec<char> = Vec::new();
        root.push('/');
        out.push(root);
    }
    let mut start: usize = 0;
    let mut lead: bool = !rooted;
    let mut done: bool = false;
    assert(v@.subrange(0, n as int) =~= s@);
    assert(char_views(out@) + named_parts(slash_parts(v@.subrange(0, n as int)), lead)
        =~= path_components(s@));
    while !done
        invariant
            v@ == s@,
            n == v@.len(),
            start <= n,
            !done ==> char_views(out@) + named_parts(
                slash_parts(v@.subrange(start as int, n as int)),
                lead,
            ) == path_components(s@),
            done ==> char_views(out@) == path_components(s@),
        decreases (if done {
            0int
        } else {
            n - start + 1
        }),
    {
        let k = crate::text::find_char_from(&v, start, '/');
        let ghost t = v@.subrange(start as int, n as int);
        let ghost before = out@;
        let ghost parts = slash_parts(t);
        proof {
            crate::text::lemma_span_until(t, '/', k - start);
        }
        let part = chars_between(&v, start, k);
        proof {
            assert(part@ =~= t.subrange(0, k - start));
            if k < n {
                assert(t.subrange(k - start + 1, t.len() as int) =~= v@.subrange(k + 1, n as int));
                assert(parts[0] == part@);
                assert(parts.drop_first() =~= slash_parts(v@.subrange(k + 1, n as int)));
            } else {
                assert(part@ =~= t);
                assert(parts =~= seq![part@]);
                assert(parts.drop_first() =~= Seq::<Seq<char>>::empty());
            }
        }
        let is_dot = part.len() == 1 && part[0] == '.';
        proof {
            if is_dot {
                assert(part@ =~= seq!['.']);
            }
            if part@ == seq!['.'] {
                assert(part@[0] == '.');
            }
        }
        let keep = part.len() > 0 && !(is_dot && !lead);
        if keep {
            out.push(part);
        }
        proof {
            if keep {
                assert(char_views(out@) =~= char_views(before).push(part@));
                assert(char_views(out@) + named_parts(parts.drop_first(), false) =~= char_views(before)
                    + named_parts(parts, lead));
            } else {
                assert(out@ == before);
            }
        }
        lead = false;
        if k < n {
            start = k + 1;
        } else {
            done = true;
            proof {
                assert(char_views(out@) + named_parts(Seq::<Seq<char>>::empty(), false)
                    =~= char_views(out@));
            }
        }
    }
    out
}

/// Whether two paths are equal as `Path`s (`Path::new(a) == Path::new(b)`):
/// their components agree.
pub fn paths_equal(a: &str, b: &str) -> (r: bool)
    ensures
        r == same_path(a@, b@),
{
    let ca = path_components_of(a);
    let cb = path_components_of(b);
    if ca.len() != cb.len() {
        assert(char_views(ca@).len() != char_views(cb@).len());
        return false;
    }
    let mut i: usize = 0;
    while i < ca.len()
        invariant
            char_views(ca@) == path_components(a@),
            char_views(cb@) == path_components(b@),
            ca@.len() == cb@.len(),
            i <= ca@.len(),
            forall|j: int| 0 <= j < i ==> ca@[j]@ == cb@[j]@,
        decreases ca@.len() - i,
    {
        if !crate::text::seq_char_eq(&ca[i], &cb[i]) {
            assert(char_views(ca@)[i as int] != char_views(cb@)[i as int]);
            assert(path_components(a@) != path_components(b@));
            return false;
        }
        i = i + 1;
    }
    assert(char_views(ca@) =~= char_views(cb@));
    true
}

/// The first index in `k..n` at which `pred` holds.
pub open spec fn first_from(k: int, n: int, pred: spec_fn(int) -> bool) -> Option<int>
    decreases n - k,
{
    if k >= n {
        None
    } else if pred(k) {
        Some(k)
    } else {
        first_from(k + 1, n, pred)
    }
}

pub(crate) proof fn lemma_first_from(k: int, n: int, pred: spec_fn(int) -> bool)
    ensures
        match first_from(k, n, pred) {
            Some(i) => k <= i < n && pred(i) && forall|j: int| k <= j < i ==> !#[trigger] pred(j),
            None => forall|j: int| k <= j < n ==> !#[trigger] pred(j),
        },
    decreases n - k,
{
    if k < n {
        lemma_first_from(k + 1, n, pred);
    }
}

/// Whether `device` is the device at `preferred`, by its path or one of its
/// symlinks.
pub open spec fn device_is_at(device: VideoDeviceInfo, preferred: Seq<char>) -> bool {
    same_path(device.path@, preferred) || exists|j: int|
        0 <= j < device.symlinks@.len() && same_path(#[trigger] device.symlinks@[j]@, preferred)
}

pub open spec fn can_stream(device: VideoDeviceInfo) -> bool {
    device.supports_capture && device.supports_streaming
}

/// The index that `select_capture_device` picks: the first device at the
/// preferred path; else the first that can capture and stream; else the
/// first device.
pub open spec fn capture_choice(devices: Seq<VideoDeviceInfo>, preferred: Option<&str>) -> Option<
    int,
> {
    let by_path = match preferred {
        Some(p) => first_from(0, devices.len() as int, |i: int| device_is_at(devices[i], p@)),
        None => None,
    };
    let streaming = first_from(0, devices.len() as int, |i: int| can_stream(devices[i]));
    if by_path is Some {
        by_path
    } else if streaming is Some {
        streaming
    } else if devices.len() > 0 {
        Some(0)
    } else {
        None
    }
}

/// Whether a device streams a grayscale (infrared) format.
pub open spec fn is_ir_stream(device: VideoDeviceInfo) -> bool {
    can_stream(device) && (device.fourcc@ == "GREY"@ || device.fourcc@ == "Y8"@)
}

/// The index of the camera used for face authentication: the first device
/// that streams GREY or Y8; else the one that `select_capture_device` picks.
pub open spec fn ir_device_choice(devices: Seq<VideoDeviceInfo>, preferred: Option<&str>) -> Option<
    int,
> {
    let ir = first_from(0, devices.len() as int, |i: int| is_ir_stream(devices[i]));
    if ir is Some {
        ir
    } else {
        capture_choice(devices, preferred)
    }
}

fn device_is_at_exec(device: &VideoDeviceInfo, preferred: &str) -> (r: bool)
    ensures
        r == device_is_at(*device, preferred@),
{
    if paths_equal(device.path.as_str(), preferred) {
        return true;
    }
    let mut j: usize = 0;
    while j < device.symlinks.len()
        invariant
            j <= device.symlinks@.len(),
            !same_path(device.path@, preferred@),
            forall|k: int| 0 <= k < j ==> !same_path(#[trigger] device.symlinks@[k]@, preferred@),
        decreases device.symlinks@.len() - j,
    {
        if paths_equal(device.symlinks[j].as_str(), preferred) {
            return true;
        }
        j = j + 1;
    }
    false
}

pub(crate) fn first_at_path(devices: &[VideoDeviceInfo], preferred: &str) -> (r: Option<usize>)
    ensures
        r matches Some(i) ==> i < devices@.len(),
        r matches Some(i) ==> Some(i as int) == first_from(
            0,
            devices@.len() as int,
            |i: int| device_is_at(devices@[i], preferred@),
        ),
        r is None ==> first_from(0, devices@.len() as int, |i: int| device_is_at(devices@[i], preferred@))
            is None,
{
    let ghost pred = |i: int| device_is_at(devices@[i], preferred@);
    let mut i: usize = 0;
    while i < devices.len()
        invariant
            i <= devices@.len(),
            pred == (|i: int| device_is_at(devices@[i], preferred@)),
            first_from(0, devices@.len() as int, pred) == first_from(i as int, devices@.len() as int, pred),
        decreases devices@.len() - i,
    {
        if device_is_at_exec(&devices[i], preferred) {
            return Some(i);
        }
        i = i + 1;
    }
    None
}

fn first_streaming(devices: &[VideoDeviceInfo]) -> (r: Option<usize>)
    ensures
        r matches Some(i) ==> i < devices@.len(),
        r matches Some(i) ==> Some(i as int) == first_from(
            0,
            devices@.len() as int,
            |i: int| can_stream(devices@[i]),
        ),
        r is None ==> first_from(0, devices@.len() as int, |i: int| can_stream(devices@[i])) is None,
{
    let ghost pred = |i: int| can_stream(devices@[i]);
    let mut i: usize = 0;
    while i < devices.len()
        invariant
            i <= devices@.len(),
            pred == (|i: int| can_stream(devices@[i])),
            first_from(0, devices@.len() as int, pred) == first_from(i as int, devices@.len() as int, pred),
        decreases devices@.len() - i,
    {
        if devices[i].supports_capture && devices[i].supports_streaming {
            return Some(i);
        }
        i = i + 1;
    }
    None
}

fn is_ir_fourcc(fourcc: &String) -> (r: bool)
    ensures
        r == (fourcc@ == "GREY"@ || fourcc@ == "Y8"@),
{
    str_eq(fourcc.as_str(), "GREY") || str_eq(fourcc.as_str(), "Y8")
}

fn first_ir_stream(devices: &[VideoDeviceInfo]) -> (r: Option<usize>)
    ensures
        r matches Some(i) ==> i < devices@.len(),
        r matches Some(i) ==> Some(i as int) == first_from(
            0,
            devices@.len() as int,
            |i: int| is_ir_stream(devices@[i]),
        ),
        r is None ==> first_from(0, devices@.len() as int, |i: int| is_ir_stream(devices@[i])) is None,
{
    let ghost pred = |i: int| is_ir_stream(devices@[i]);
    let mut i: usize = 0;
    while i < devices.len()
        invariant
            i <= devices@.len(),
            pred == (|i: int| is_ir_stream(devices@[i])),
            first_from(0, devices@.len() as int, pred) == first_from(i as int, devices@.len() as int, pred),
        decreases devices@.len() - i,
    {
        if devices[i].supports_capture && devices[i].supports_streaming && is_ir_fourcc(
            &devices[i].fourcc,
        ) {
            return Some(i);
        }
        i = i + 1;
    }
    None
}

fn capture_choice_index(devices: &[VideoDeviceInfo], preferred: Option<&str>) -> (r: Option<usize>)
    ensures
        r matches Some(i) ==> i < devices@.len(),
        r matches Some(i) ==> capture_choice(devices@, preferred) == Some(i as int),
        r is None ==> capture_choice(devices@, preferred) is None,
{
    if let Some(p) = preferred {
        if let Some(i) = first_at_path(devices, p) {
            return Some(i);
        }
    }
    if let Some(i) = first_streaming(devices) {
        return Some(i);
    }
    if devices.len() > 0 {
        Some(0)
    } else {
        None
    }
}

/// Picks the device to capture from: the first device at `preferred` (by
/// path or symlink), else the first that can capture and stream, else the
/// first device; `None` only when there is no device.
pub fn select_capture_device(devices: &[VideoDeviceInfo], preferred: Option<&str>) -> (r: Option<
    VideoDeviceInfo,
>)
    ensures
        match capture_choice(devices@, preferred) {
            Some(i) => r matches Some(d) && d.same_as(devices@[i]),
            None => r is None,
        },
        r is None <==> devices@.len() == 0,
{
    match capture_choice_index(devices, preferred) {
        Some(i) => Some(devices[i].clone()),
        None => None,
    }
}

/// Picks the infrared camera: the first device that captures and streams in
/// GREY or Y8, else the device that `select_capture_device` picks.
pub fn select_ir_device(devices: &[VideoDeviceInfo], preferred: Option<&str>) -> (r: Option<
    VideoDeviceInfo,
>)
    ensures
        match ir_device_choice(devices@, preferred) {
            Some(i) => r matches Some(d) && d.same_as(devices@[i]),
            None => r is None,
        },
{
    match first_ir_stream(devices) {
        Some(i) => Some(devices[i].clone()),
        None => select_capture_device(devices, preferred),
    }
}

/// Whether devices stand in the order of their path texts.
pub open spec fn devices_sorted(s: Seq<VideoDeviceInfo>) -> bool {
    forall|i: int, j: int|
        0 <= i < j < s.len() ==> !text_before(#[trigger] s[j].path@, #[trigger] s[i].path@)
}

/// The index at which `x` goes into sorted `out`: after every device whose
/// path `x`'s path does not come before, so before every device whose path
/// comes after it.
fn device_insertion_point(out: &Vec<VideoDeviceInfo>, x: &VideoDeviceInfo) -> (p: usize)
    requires
        devices_sorted(out@),
    ensures
        p <= out@.len(),
        forall|i: int| 0 <= i < p ==> !text_before(x.path@, #[trigger] out@[i].path@),
        forall|j: int| p <= j < out@.len() ==> text_before(x.path@, #[trigger] out@[j].path@),
{
    let mut p: usize = 0;
    while p < out.len()
        invariant
            devices_sorted(out@),
            p <= out@.len(),
            forall|i: int| 0 <= i < p ==> !text_before(x.path@, #[trigger] out@[i].path@),
        decreases out@.len() - p,
    {
        if str_before(x.path.as_str(), out[p].path.as_str()) {
            proof {
                assert forall|j: int| p <= j < out@.len() implies text_before(
                    x.path@,
                    #[trigger] out@[j].path@,
                ) by {
                    if j > p {
                        assert(!text_before(out@[j].path@, out@[p as int].path@));
                        if out@[j].path@ != out@[p as int].path@ {
                            lemma_text_before_total(out@[j].path@, out@[p as int].path@);
                            lemma_text_before_transitive(x.path@, out@[p as int].path@, out@[j].path@);
                        }
                    }
                }
            }
            return p;
        }
        p = p + 1;
    }
    p
}

/// `r` holds the devices of `s`, the one at each position `i` being
/// `s[perm[i]]`, each index of `s` used once, sorted by path text, and
/// devices with equal paths in their order in `s`.
pub open spec fn stable_path_order(r: Seq<VideoDeviceInfo>, s: Seq<VideoDeviceInfo>, perm: Seq<int>) -> bool {
    &&& perm.len() == s.len()
    &&& r.len() == s.len()
    &&& forall|i: int| 0 <= i < perm.len() ==> 0 <= #[trigger] perm[i] < s.len() && r[i] == s[perm[i]]
    &&& forall|i: int, j: int| 0 <= i < j < perm.len() ==> #[trigger] perm[i] != #[trigger] perm[j]
    &&& devices_sorted(r)
    &&& forall|i: int, j: int|
        0 <= i < j < r.len() && #[trigger] r[i].path@ == #[trigger] r[j].path@ ==> perm[i] < perm[j]
}

/// The devices ordered by their path text, character by character; devices
/// with the same path keep their order (a stable sort). For device files of
/// one directory, such as `/dev/video*`, this is the order of `Path`.
pub fn sort_devices_by_path(devices: Vec<VideoDeviceInfo>) -> (r: Vec<VideoDeviceInfo>)
    ensures
        r@.to_multiset() == devices@.to_multiset(),
        devices_sorted(r@),
        exists|perm: Seq<int>| stable_path_order(r@, devices@, perm),
{
    let ghost all = devices@;
    let mut rest = devices;
    let mut out: Vec<VideoDeviceInfo> = Vec::new();
    let ghost mut perm: Seq<int> = Seq::empty();
    assert(out@.to_multiset().add(rest@.to_multiset()) =~= all.to_multiset()) by {
        broadcast use vstd::multiset::group_multiset_axioms;
        broadcast use vstd::seq_lib::group_to_multiset_ensures;

        assert(out@ =~= Seq::<VideoDeviceInfo>::empty());
    }
    assert(rest@ =~= all.subrange(0, all.len() as int));
    while rest.len() > 0
        invariant
            out@.to_multiset().add(rest@.to_multiset()) == all.to_multiset(),
            rest@.len() <= all.len(),
            rest@ == all.subrange(all.len() - rest@.len(), all.len() as int),
            perm.len() == out@.len(),
            out@.len() == all.len() - rest@.len(),
            forall|i: int|
                0 <= i < perm.len() ==> 0 <= #[trigger] perm[i] < out@.len() && out@[i] == all[perm[i]],
            forall|i: int, j: int| 0 <= i < j < perm.len() ==> #[trigger] perm[i] != #[trigger] perm[j],
            devices_sorted(out@),
            forall|i: int, j: int|
                0 <= i < j < out@.len() && #[trigger] out@[i].path@ == #[trigger] out@[j].path@
                    ==> perm[i] < perm[j],
        decreases rest@.len(),
    {
        let ghost r0 = rest@;
        let ghost k: int = out@.len() as int;
        let x = rest.remove(0);
        assert(x == all[k]);
        let p = device_insertion_point(&out, &x);
        let ghost before = out@;
        let ghost old_perm = perm;
        out.insert(p, x);
        proof {
            broadcast use vstd::multiset::group_multiset_axioms;

            perm = old_perm.insert(p as int, k);
            old_perm.insert_ensures(p as int, k);
            before.insert_ensures(p as int, x);
            assert(rest@ =~= all.subrange(all.len() - rest@.len(), all.len() as int));
            vstd::seq_lib::to_multiset_remove(r0, 0);
            vstd::seq_lib::to_multiset_insert(before, p as int, x);
            vstd::seq_lib::to_multiset_contains(r0, x);
            assert(r0.contains(x));
            assert(out@.to_multiset().add(rest@.to_multiset()) =~= before.to_multiset().add(
                r0.to_multiset(),
            ));
            assert forall|i: int| 0 <= i < perm.len() implies 0 <= #[trigger] perm[i] < out@.len()
                && out@[i] == all[perm[i]] by {
                if i > p {
                    assert(perm[i] == old_perm[i - 1]);
                    assert(out@[i] == before[i - 1]);
                }
            }
            assert forall|i: int, j: int| 0 <= i < j < perm.len() implies #[trigger] perm[i]
                != #[trigger] perm[j] by {
                if i > p {
                    assert(perm[i] == old_perm[i - 1]);
                }
                if j > p {
                    assert(perm[j] == old_perm[j - 1]);
                }
                if i != p && j != p {
                    let oi = if i < p { i } else { i - 1 };
                    let oj = if j < p { j } else { j - 1 };
                    assert(old_perm[oi] != old_perm[oj]);
                }
            }
            assert forall|a: int, b: int| 0 <= a < b < out@.len() implies !text_before(
                #[trigger] out@[b].path@,
                #[trigger] out@[a].path@,
            ) by {
                if a < p && b < p {
                } else if a < p && b == p {
                } else if a < p {
                    assert(out@[b] == before[b - 1]);
                } else if a == p {
                    assert(out@[b] == before[b - 1]);
                    if text_before(before[b - 1].path@, x.path@) {
                        lemma_text_before_transitive(x.path@, before[b - 1].path@, x.path@);
                        lemma_text_before_irreflexive(x.path@);
                    }
                } else {
                    assert(out@[b] == before[b - 1]);
                    assert(out@[a] == before[a - 1]);
                }
            }
            assert forall|a: int, b: int|
                0 <= a < b < out@.len() && #[trigger] out@[a].path@ == #[trigger] out@[b].path@
                    implies perm[a] < perm[b] by {
                if a < p && b < p {
                } else if a < p && b == p {
                } else if a < p {
                    assert(out@[b] == before[b - 1]);
                    assert(perm[b] == old_perm[b - 1]);
                } else if a == p {
                    assert(out@[b] == before[b - 1]);
                    assert(text_before(x.path@, before[b - 1].path@));
                    lemma_text_before_irreflexive(x.path@);
                } else {
                    assert(out@[b] == before[b - 1]);
                    assert(out@[a] == before[a - 1]);
                    assert(perm[b] == old_perm[b - 1]);
                    assert(perm[a] == old_perm[a - 1]);
                }
            }
        }
    }
    proof {
        broadcast use vstd::multiset::group_multiset_axioms;

        assert(rest@ =~= Seq::<VideoDeviceInfo>::empty());
        assert(out@.to_multiset().add(rest@.to_multiset()) =~= out@.to_multiset());
        assert(stable_path_order(out@, all, perm));
    }
    out
}

// ---------------------------------------------------------------------------
// Capabilities and formats
// ---------------------------------------------------------------------------

/// `V4L2_CAP_VIDEO_CAPTURE` of the V4L2 user API.
pub const CAP_VIDEO_CAPTURE: u32 = 0x0000_0001;

/// `V4L2_CAP_VIDEO_CAPTURE_MPLANE` of the V4L2 user API.
pub const CAP_VIDEO_CAPTURE_MPLANE: u32 = 0x0000_1000;

/// `V4L2_CAP_STREAMING` of the V4L2 user API.
pub const CAP_STREAMING: u32 = 0x0400_0000;

/// Whether a device with these capability bits can capture video (single or
/// multi-planar), and whether it can stream.
pub fn capture_support(capabilities: u32) -> (r: (bool, bool))
    ensures
        r.0 == ((capabilities & CAP_VIDEO_CAPTURE) != 0 || (capabilities & CAP_VIDEO_CAPTURE_MPLANE)
            != 0),
        r.1 == ((capabilities & CAP_STREAMING) != 0),
{
    (
        (capabilities & CAP_VIDEO_CAPTURE) != 0 || (capabilities & CAP_VIDEO_CAPTURE_MPLANE) != 0,
        (capabilities & CAP_STREAMING) != 0,
    )
}

/// The text of valid UTF-8 bytes, `None` for invalid ones (`str::from_utf8`).
#[verifier::external_body]
pub(crate) fn utf8_text(bytes: &[u8]) -> (r: Option<String>)
    ensures
        r is Some <==> valid_utf8(bytes@),
        r matches Some(t) ==> t@ == decode_utf8(bytes@),
{
    std::str::from_utf8(bytes).ok().map(|t| t.to_string())
}

/// The name of a four-character code: its text when the four bytes are
/// UTF-8, `UNKNOWN` otherwise.
pub fn fourcc_to_string(repr: [u8; 4]) -> (r: String)
    ensures
        valid_utf8(repr@) ==> r@ == decode_utf8(repr@),
        !valid_utf8(repr@) ==> r@ == "UNKNOWN"@,
{
    match utf8_text(repr.as_slice()) {
        Some(t) => t,
        None => owned("UNKNOWN"),
    }
}

// ---------------------------------------------------------------------------
// Grayscale conversion
// ---------------------------------------------------------------------------

/// Luma of an RGB pixel with the integer weights 299, 587 and 114 per mille.
pub open spec fn luma(r: int, g: int, b: int) -> int {
    (299 * r + 587 * g + 114 * b) / 1000
}

/// Luma of an RGB pixel, rounded down.
pub fn rgb_to_luma(r: u8, g: u8, b: u8) -> (y: u8)
    ensures
        y == luma(r as int, g as int, b as int),
{
    let r: u32 = r as u32;
    let g: u32 = g as u32;
    let b: u32 = b as u32;
    ((299 * r + 587 * g + 114 * b) / 1000) as u8
}

/// One RGB channel of a CMYK pixel: `(1 - x/255)(1 - k/255)` scaled to 255 and
/// rounded to the nearest integer. The exact value is never halfway between
/// two integers, so rounding half up is rounding to nearest.
pub open spec fn cmyk_channel(x: int, k: int) -> int {
    ((255 - x) * (255 - k) * 2 + 255) / 510
}

fn cmyk_channel_exec(x: u8, k: u8) -> (c: u8)
    ensures
        c == cmyk_channel(x as int, k as int),
{
    let a: u32 = 255 - x as u32;
    let b: u32 = 255 - k as u32;
    assert(a * b <= 255 * 255) by (nonlinear_arith)
        requires
            a <= 255,
            b <= 255,
    ;
    let v: u32 = (a * b * 2 + 255) / 510;
    assert(v <= 255);
    v as u8
}

/// The luma of each complete RGB triple.
pub open spec fn rgb24_luma(p: Seq<u8>) -> Seq<u8> {
    Seq::new(
        p.len() / 3,
        |i: int| luma(p[3 * i] as int, p[3 * i + 1] as int, p[3 * i + 2] as int) as u8,
    )
}

/// The luma of each complete CMYK quadruple.
pub open spec fn cmyk32_luma(p: Seq<u8>) -> Seq<u8> {
    Seq::new(
        p.len() / 4,
        |i: int|
            luma(
                cmyk_channel(p[4 * i] as int, p[4 * i + 3] as int),
                cmyk_channel(p[4 * i + 1] as int, p[4 * i + 3] as int),
                cmyk_channel(p[4 * i + 2] as int, p[4 * i + 3] as int),
            ) as u8,
    )
}

/// The Y samples of the first `expected` bytes of a YUYV buffer: bytes 0
/// and 2 of every complete group of four.
pub open spec fn yuyv_luma(bytes: Seq<u8>, expected: int) -> Seq<u8> {
    Seq::new((2 * (expected / 4)) as nat, |k: int| bytes[2 * k])
}

/// `width * height` without overflow.
fn area(width: u32, height: u32) -> (r: u128)
    ensures
        r == width * height,
        r <= 0xffff_fffe_0000_0001u128,
{
    assert(width * height <= 0xffff_fffe_0000_0001u128) by (nonlinear_arith)
        requires
            width <= 0xffff_ffffu32,
            height <= 0xffff_ffffu32,
    ;
    (width as u128) * (height as u128)
}

fn copy_prefix(bytes: &[u8], n: usize) -> (r: Vec<u8>)
    requires
        n <= bytes@.len(),
    ensures
        r@ == bytes@.subrange(0, n as int),
{
    let mut r: Vec<u8> = Vec::new();
    let mut i: usize = 0;
    while i < n
        invariant
            n <= bytes@.len(),
            i <= n,
            r@ =~= bytes@.subrange(0, i as int),
        decreases n - i,
    {
        r.push(bytes[i]);
        i = i + 1;
    }
    r
}

fn rgb24_to_gray(p: &Vec<u8>) -> (r: Vec<u8>)
    ensures
        r@ == rgb24_luma(p@),
{
    let len: usize = p.len();
    let n: usize = len / 3;
    let mut r: Vec<u8> = Vec::new();
    let mut i: usize = 0;
    while i < n
        invariant
            len == p@.len(),
            n == p@.len() / 3,
            i <= n,
            r@.len() == i,
            forall|j: int| 0 <= j < i ==> r@[j] == rgb24_luma(p@)[j],
        decreases n - i,
    {
        assert(3 * i + 2 < p@.len()) by (nonlinear_arith)
            requires
                i < n,
                n == p@.len() / 3,
        ;
        let b: usize = 3 * i;
        let y = rgb_to_luma(p[b], p[b + 1], p[b + 2]);
        r.push(y);
        i = i + 1;
    }
    assert(r@ =~= rgb24_luma(p@));
    r
}

fn cmyk32_to_gray(p: &Vec<u8>) -> (r: Vec<u8>)
    ensures
        r@ == cmyk32_luma(p@),
{
    let len: usize = p.len();
    let n: usize = len / 4;
    let mut r: Vec<u8> = Vec::new();
    let mut i: usize = 0;
    while i < n
        invariant
            len == p@.len(),
            n == p@.len() / 4,
            i <= n,
            r@.len() == i,
            forall|j: int| 0 <= j < i ==> r@[j] == cmyk32_luma(p@)[j],
        decreases n - i,
    {
        assert(4 * i + 3 < p@.len()) by (nonlinear_arith)
            requires
                i < n,
                n == p@.len() / 4,
        ;
        let b: usize = 4 * i;
        let k = p[b + 3];
        let red = cmyk_channel_exec(p[b], k);
        let green = cmyk_channel_exec(p[b + 1], k);
        let blue = cmyk_channel_exec(p[b + 2], k);
        r.push(rgb_to_luma(red, green, blue));
        i = i + 1;
    }
    assert(r@ =~= cmyk32_luma(p@));
    r
}

/// The RGB samples of a grayscale image: each gray value three times.
pub fn gray_to_rgb(pixels: &Vec<u8>) -> (r: Vec<u8>)
    requires
        pixels@.len() <= usize::MAX / 3,
    ensures
        r@.len() == 3 * pixels@.len(),
        forall|i: int| 0 <= i < r@.len() ==> #[trigger] r@[i] == pixels@[i / 3],
{
    let mut r: Vec<u8> = Vec::new();
    let mut i: usize = 0;
    while i < pixels.len()
        invariant
            i <= pixels@.len(),
            pixels@.len() <= usize::MAX / 3,
            r@.len() == 3 * i,
            forall|j: int| 0 <= j < r@.len() ==> #[trigger] r@[j] == pixels@[j / 3],
        decreases pixels@.len() - i,
    {
        let p = pixels[i];
        let ghost before = r@;
        r.push(p);
        r.push(p);
        r.push(p);
        proof {
            assert forall|j: int| 0 <= j < r@.len() implies #[trigger] r@[j] == pixels@[j / 3] by {
                if j < 3 * i {
                    assert(r@[j] == before[j]);
                } else {
                    assert(j / 3 == i) by (nonlinear_arith)
                        requires
                            3 * i <= j < 3 * i + 3,
                    ;
                }
            }
        }
        i = i + 1;
    }
    r
}

/// A decoded JPEG image: its samples, their layout, its size, and whether
/// it was coded losslessly.
#[derive(Debug, Clone, PartialEq, Eq)]
pub struct DecodedJpeg {
    pub pixels: Vec<u8>,
    pub kind: JpegPixelKind,
    pub width: u16,
    pub height: u16,
    pub lossless: bool,
}

/// The bytes per pixel of an 8-bit JPEG layout.
pub open spec fn jpeg_channels(kind: JpegPixelKind) -> int {
    match kind {
        JpegPixelKind::L8 => 1,
        JpegPixelKind::L16 => 2,
        JpegPixelKind::Rgb24 => 3,
        JpegPixelKind::Cmyk32 => 4,
    }
}

/// Why a JPEG could not be decoded.
#[derive(Debug, Clone, PartialEq, Eq)]
pub enum JpegFailure {
    /// The decoder rejected the data, with its reason.
    Decode(String),
    /// The decoder succeeded but gave no image metadata.
    MissingInfo,
}

/// What `jpeg_decoder` makes of `data`: the samples, layout, size and
/// whether the coding process is lossless, or `Err(Some(reason))` when
/// decoding fails, or `Err(None)` when no metadata is available after
/// decoding.
pub uninterp spec fn jpeg_decoded(data: Seq<u8>) -> Result<
    (Seq<u8>, JpegPixelKind, u16, u16, bool),
    Option<Seq<char>>,
>;

/// Decodes a JPEG image with `jpeg_decoder::Decoder` (`decode`, then `info`).
/// The decoder sizes its output from the frame's size and component count:
/// an image coded with a DCT process (8-bit samples) decodes to width times
/// height pixels of its layout's size; a losslessly coded one gives one
/// byte per sample when its precision is 8 bits and two bytes per sample
/// otherwise (the precision is not reported by the decoder's interface).
#[verifier::external_body]
fn decode_jpeg(data: &[u8]) -> (r: Result<DecodedJpeg, JpegFailure>)
    ensures
        match jpeg_decoded(data@) {
            Ok((p, kind, w, h, lossless)) => r matches Ok(d) && d.pixels@ == p && d.kind == kind
                && d.width == w && d.height == h && d.lossless == lossless,
            Err(Some(m)) => r matches Err(JpegFailure::Decode(t)) && t@ == m,
            Err(None) => r matches Err(JpegFailure::MissingInfo),
        },
        r matches Ok(d) ==> (!d.lossless && d.kind != JpegPixelKind::L16 ==> d.pixels@.len()
            == d.width * d.height * jpeg_channels(d.kind)),
        r matches Ok(d) ==> (d.lossless && d.kind != JpegPixelKind::L16 ==> (d.pixels@.len()
            == d.width * d.height * jpeg_channels(d.kind) || d.pixels@.len() == 2 * (d.width
            * d.height * jpeg_channels(d.kind)))),
{
    let mut decoder = jpeg_decoder::Decoder::new(std::io::Cursor::new(data));
    let pixels = decoder.decode().map_err(|e| JpegFailure::Decode(format!("{}", e)))?;
    let info = decoder.info().ok_or(JpegFailure::MissingInfo)?;
    let kind = match info.pixel_format {
        jpeg_decoder::PixelFormat::L8 => JpegPixelKind::L8,
        jpeg_decoder::PixelFormat::L16 => JpegPixelKind::L16,
        jpeg_decoder::PixelFormat::RGB24 => JpegPixelKind::Rgb24,
        jpeg_decoder::PixelFormat::CMYK32 => JpegPixelKind::Cmyk32,
    };
    let lossless = matches!(info.coding_process, jpeg_decoder::CodingProcess::Lossless);
    Ok(DecodedJpeg { pixels, kind, width: info.width, height: info.height, lossless })
}

/// The outcome of converting a GREY or Y8 frame.
pub open spec fn grey_result(frame: CapturedFrame, r: Result<GrayscaleFrame, CameraError>) -> bool {
    let expected = frame.width * frame.height;
    if frame.bytes@.len() < expected {
        r matches Err(CameraError::GreyBufferTooSmall { got, expected: e }) && got
            == frame.bytes@.len() && e == expected
    } else {
        r matches Ok(g) && g.width == frame.width && g.height == frame.height && g.pixels@
            == frame.bytes@.subrange(0, expected)
    }
}

/// The outcome of converting a YUYV or YUY2 frame.
pub open spec fn yuyv_result(frame: CapturedFrame, r: Result<GrayscaleFrame, CameraError>) -> bool {
    let expected = frame.width * frame.height * 2;
    if frame.bytes@.len() < expected {
        r matches Err(CameraError::YuyvBufferTooSmall { got, expected: e }) && got
            == frame.bytes@.len() && e == expected
    } else {
        r matches Ok(g) && g.width == frame.width && g.height == frame.height && g.pixels@
            == yuyv_luma(frame.bytes@, expected)
    }
}

/// The outcome of converting an MJPG frame.
pub open spec fn mjpg_result(frame: CapturedFrame, r: Result<GrayscaleFrame, CameraError>) -> bool {
    match jpeg_decoded(frame.bytes@) {
        Err(Some(m)) => r matches Err(CameraError::JpegDecode { cause }) && cause@ == m,
        Err(None) => r matches Err(CameraError::JpegMetadataMissing),
        Ok((p, kind, w, h, _)) => match kind {
            JpegPixelKind::L16 => r matches Err(CameraError::UnsupportedJpegFormat),
            _ => r matches Ok(g) && g.width == w as u32 && g.height == h as u32 && g.pixels@ == (
            match kind {
                JpegPixelKind::Rgb24 => rgb24_luma(p),
                JpegPixelKind::Cmyk32 => cmyk32_luma(p),
                _ => p,
            }),
        },
    }
}

/// The outcome of converting a frame to grayscale, by its four-character
/// code without surrounding whitespace.
pub open spec fn grayscale_result(frame: CapturedFrame, r: Result<GrayscaleFrame, CameraError>) -> bool {
    let code = trim(frame.fourcc@);
    if code == "GREY"@ || code == "Y8"@ {
        grey_result(frame, r)
    } else if code == "MJPG"@ {
        mjpg_result(frame, r)
    } else if code == "YUYV"@ || code == "YUY2"@ {
        yuyv_result(frame, r)
    } else {
        r matches Err(CameraError::UnsupportedPixelFormat { fourcc }) && fourcc@ == code
    }
}

fn decode_grey(frame: &CapturedFrame) -> (r: Result<GrayscaleFrame, CameraError>)
    ensures
        grey_result(*frame, r),
{
    let expected: u128 = area(frame.width, frame.height);
    if (frame.bytes.len() as u128) < expected {
        return Err(CameraError::GreyBufferTooSmall { got: frame.bytes.len(), expected });
    }
    let n = expected as usize;
    Ok(
        GrayscaleFrame {
            width: frame.width,
            height: frame.height,
            pixels: copy_prefix(frame.bytes.as_slice(), n),
        },
    )
}

fn decode_yuyv(frame: &CapturedFrame) -> (r: Result<GrayscaleFrame, CameraError>)
    ensures
        yuyv_result(*frame, r),
{
    let expected: u128 = area(frame.width, frame.height) * 2;
    if (frame.bytes.len() as u128) < expected {
        return Err(CameraError::YuyvBufferTooSmall { got: frame.bytes.len(), expected });
    }
    let n: usize = expected as usize;
    let groups: usize = n / 4;
    let mut pixels: Vec<u8> = Vec::new();
    let mut i: usize = 0;
    while i < groups
        invariant
            groups == n / 4,
            n <= frame.bytes@.len(),
            n == expected,
            i <= groups,
            pixels@.len() == 2 * i,
            forall|k: int| 0 <= k < 2 * i ==> pixels@[k] == frame.bytes@[2 * k],
        decreases groups - i,
    {
        assert(4 * i + 3 < n) by (nonlinear_arith)
            requires
                i < groups,
                groups == n / 4,
        ;
        let b: usize = 4 * i;
        pixels.push(frame.bytes[b]);
        pixels.push(frame.bytes[b + 2]);
        i = i + 1;
    }
    assert(pixels@ =~= yuyv_luma(frame.bytes@, expected as int));
    Ok(GrayscaleFrame { width: frame.width, height: frame.height, pixels })
}

fn decode_mjpg(frame: &CapturedFrame) -> (r: Result<GrayscaleFrame, CameraError>)
    ensures
        mjpg_result(*frame, r),
        r matches Ok(g) ==> (!(jpeg_decoded(frame.bytes@) matches Ok((_, _, _, _, true)))
            ==> g.pixels@.len() == g.width * g.height),
        r matches Ok(g) ==> (g.pixels@.len() == g.width * g.height || g.pixels@.len() == 2 * (
        g.width * g.height)),
{
    let decoded = match decode_jpeg(frame.bytes.as_slice()) {
        Ok(d) => d,
        Err(JpegFailure::Decode(cause)) => return Err(CameraError::JpegDecode { cause }),
        Err(JpegFailure::MissingInfo) => return Err(CameraError::JpegMetadataMissing),
    };
    let pixels = match decoded.kind {
        JpegPixelKind::L8 => decoded.pixels,
        JpegPixelKind::Rgb24 => rgb24_to_gray(&decoded.pixels),
        JpegPixelKind::Cmyk32 => cmyk32_to_gray(&decoded.pixels),
        JpegPixelKind::L16 => return Err(CameraError::UnsupportedJpegFormat),
    };
    proof {
        let wh = decoded.width * decoded.height;
        assert(wh * 3 / 3 == wh && wh * 4 / 4 == wh) by (nonlinear_arith)
            requires
                wh >= 0,
        ;
        assert(2 * (wh * 3) / 3 == 2 * wh && 2 * (wh * 4) / 4 == 2 * wh) by (nonlinear_arith)
            requires
                wh >= 0,
        ;
    }
    Ok(
        GrayscaleFrame {
            width: decoded.width as u32,
            height: decoded.height as u32,
            pixels,
        },
    )
}

/// Whether converting `frame` surely gives one pixel per position of its
/// image: always, but for YUYV frames of odd area (the last group of four
/// bytes is incomplete) and MJPG frames coded losslessly (one pixel per
/// position at 8-bit precision, two below it, and the decoder does not
/// report the precision).
pub open spec fn conversion_keeps_area(frame: CapturedFrame) -> bool {
    let code = trim(frame.fourcc@);
    if code == "MJPG"@ {
        !(jpeg_decoded(frame.bytes@) matches Ok((_, _, _, _, true)))
    } else if code == "YUYV"@ || code == "YUY2"@ {
        (frame.width * frame.height) % 2 == 0
    } else {
        true
    }
}

/// A four-character code without surrounding whitespace.
pub fn normalized_fourcc(fourcc: &str) -> (r: String)
    ensures
        r@ == trim(fourcc@),
{
    trim_str(fourcc)
}

/// Converts a captured frame to 8-bit grayscale according to its pixel
/// format (GREY/Y8 as is, MJPG through a JPEG decoder, YUYV/YUY2 by its Y
/// samples).
pub fn decode_to_grayscale(frame: &CapturedFrame) -> (r: Result<GrayscaleFrame, CameraError>)
    ensures
        grayscale_result(*frame, r),
        r matches Ok(g) ==> (conversion_keeps_area(*frame) ==> g.pixels@.len() == g.width
            * g.height),
        r matches Ok(g) ==> (trim(frame.fourcc@) == "MJPG"@ ==> (g.pixels@.len() == g.width
            * g.height || g.pixels@.len() == 2 * (g.width * g.height))),
{
    proof {
        let wh = frame.width * frame.height;
        assert(wh % 2 == 0 ==> 2 * (wh * 2 / 4) == wh) by (nonlinear_arith)
            requires
                wh >= 0,
        ;
    }
    let code = normalized_fourcc(frame.fourcc.as_str());
    if str_eq(code.as_str(), "GREY") || str_eq(code.as_str(), "Y8") {
        decode_grey(frame)
    } else if str_eq(code.as_str(), "MJPG") {
        decode_mjpg(frame)
    } else if str_eq(code.as_str(), "YUYV") || str_eq(code.as_str(), "YUY2") {
        decode_yuyv(frame)
    } else {
        Err(CameraError::UnsupportedPixelFormat { fourcc: code })
    }
}

/// The frames of a capture of `wanted` frames from `device`, as they come
/// from the stream.
#[derive(Debug, Clone, PartialEq, Eq)]
pub struct FrameBatch {
    pub device: String,
    pub wanted: usize,
    pub frames: Vec<CapturedFrame>,
}

impl FrameBatch {
    /// No more frames than wanted, each from the batch's device.
    pub open spec fn wf(self) -> bool {
        &&& self.frames@.len() <= self.wanted
        &&& forall|i: int| 0 <= i < self.frames@.len() ==> #[trigger] self.frames@[i].device
            == self.device
    }

    /// An empty capture of `wanted` frames from `device`.
    pub fn new(device: String, wanted: usize) -> (b: Self)
        ensures
            b.wf(),
            b.device == device,
            b.wanted == wanted,
            b.frames@.len() == 0,
    {
        FrameBatch { device, wanted, frames: Vec::new() }
    }

    /// Whether the capture still lacks frames.
    pub fn needs_more(&self) -> (r: bool)
        ensures
            r == (self.frames@.len() < self.wanted),
    {
        self.frames.len() < self.wanted
    }

    /// Adds the next frame that the stream delivered, in the device's format.
    pub fn add(&mut self, width: u32, height: u32, fourcc: String, sequence: u32, bytes: Vec<u8>)
        requires
            old(self).wf(),
            old(self).frames@.len() < old(self).wanted,
        ensures
            final(self).wf(),
            final(self).device == old(self).device,
            final(self).wanted == old(self).wanted,
            final(self).frames@ == old(self).frames@.push(
                (CapturedFrame { device: old(self).device, width, height, fourcc, sequence, bytes }),
            ),
    {
        let frame = CapturedFrame {
            device: self.device.clone(),
            width,
            height,
            fourcc,
            sequence,
            bytes,
        };
        self.frames.push(frame);
    }

    /// The captured frames, in the order they came.
    pub fn into_frames(self) -> (v: Vec<CapturedFrame>)
        ensures
            v@ == self.frames@,
    {
        self.frames
    }
}

/// The outcome of taking the one frame of a capture of one frame.
pub open spec fn single_frame_result(frames: Seq<CapturedFrame>) -> Result<CapturedFrame, CameraError> {
    if frames.len() == 0 {
        Err(CameraError::NoFrames)
    } else {
        Ok(frames[0])
    }
}

/// The one frame of a capture of one frame, or `NoFrames` when the capture
/// delivered none.
pub fn capture_single_frame(frames: Vec<CapturedFrame>) -> (r: Result<CapturedFrame, CameraError>)
    ensures
        r == single_frame_result(frames@),
{
    let mut frames = frames;
    if frames.len() == 0 {
        return Err(CameraError::NoFrames);
    }
    Ok(frames.remove(0))
}

// ---------------------------------------------------------------------------
// Frame files
// ---------------------------------------------------------------------------

/// The kind of file a frame is saved as.
#[derive(Debug, Clone, Copy, PartialEq, Eq, Structural)]
pub enum FrameFileKind {
    Jpeg,
    Pgm,
    Raw,
}

impl FrameFileKind {
    pub open spec fn label_spec(self) -> Seq<char> {
        match self {
            FrameFileKind::Jpeg => "jpeg"@,
            FrameFileKind::Pgm => "pgm"@,
            FrameFileKind::Raw => "raw"@,
        }
    }

    /// The word that names the kind in reports.
    pub fn label(&self) -> (r: &'static str)
        ensures
            r@ == self.label_spec(),
    {
        match self {
            FrameFileKind::Jpeg => "jpeg",
            FrameFileKind::Pgm => "pgm",
            FrameFileKind::Raw => "raw",
        }
    }
}

/// The header of a binary PGM image of the given size with maximum value 255.
pub open spec fn pgm_header(width: u32, height: u32) -> Seq<u8> {
    ascii_bytes("P5\n"@ + decimal(width as nat) + " "@ + decimal(height as nat) + "\n255\n"@)
}

fn push_ascii(out: &mut Vec<u8>, text: &str)
    requires
        text@.len() < 16,
    ensures
        final(out)@ == old(out)@ + ascii_bytes(text@),
{
    let chars = crate::text::chars_of(text);
    let ghost start = out@;
    let mut i: usize = 0;
    while i < chars.len()
        invariant
            i <= chars@.len(),
            chars@ == text@,
            out@ =~= start + ascii_bytes(chars@.subrange(0, i as int)),
        decreases chars@.len() - i,
    {
        out.push(chars[i] as u8);
        i = i + 1;
    }
    assert(chars@.subrange(0, chars@.len() as int) =~= chars@);
}

fn append_bytes(out: &mut Vec<u8>, bytes: &[u8], n: usize)
    requires
        n <= bytes@.len(),
    ensures
        final(out)@ == old(out)@ + bytes@.subrange(0, n as int),
{
    let ghost start = out@;
    let mut i: usize = 0;
    while i < n
        invariant
            n <= bytes@.len(),
            i <= n,
            out@ =~= start + bytes@.subrange(0, i as int),
        decreases n - i,
    {
        out.push(bytes[i]);
        i = i + 1;
    }
}

fn pgm_header_bytes(width: u32, height: u32) -> (r: Vec<u8>)
    ensures
        r@ == pgm_header(width, height),
{
    let mut r: Vec<u8> = Vec::new();
    proof {
        reveal_strlit("P5\n");
        reveal_strlit(" ");
        reveal_strlit("\n255\n");
    }
    push_ascii(&mut r, "P5\n");
    let w = decimal_bytes(width as u128);
    let wl = w.len();
    append_bytes(&mut r, w.as_slice(), wl);
    push_ascii(&mut r, " ");
    let h = decimal_bytes(height as u128);
    let hl = h.len();
    append_bytes(&mut r, h.as_slice(), hl);
    push_ascii(&mut r, "\n255\n");
    proof {
        assert(w@.subrange(0, wl as int) =~= w@);
        assert(h@.subrange(0, hl as int) =~= h@);
        let t = "P5\n"@ + decimal(width as nat) + " "@ + decimal(height as nat) + "\n255\n"@;
        assert(ascii_bytes(t) =~= ascii_bytes("P5\n"@) + ascii_bytes(decimal(width as nat))
            + ascii_bytes(" "@) + ascii_bytes(decimal(height as nat)) + ascii_bytes("\n255\n"@));
    }
    r
}

/// What a saved frame file holds: MJPG frames as they came (a JPEG file),
/// GREY and Y8 frames as a PGM image of their first width times height
/// bytes, any other frame as raw bytes.
pub open spec fn frame_file_result(frame: CapturedFrame, r: Result<(Vec<u8>, FrameFileKind), CameraError>) -> bool {
    if frame.fourcc@ == "MJPG"@ {
        r matches Ok((data, kind)) && kind == FrameFileKind::Jpeg && data@ == frame.bytes@
    } else if frame.fourcc@ == "GREY"@ || frame.fourcc@ == "Y8"@ {
        let expected = frame.width * frame.height;
        if frame.bytes@.len() < expected {
            r matches Err(CameraError::GreyBufferTooSmall { got, expected: e }) && got
                == frame.bytes@.len() && e == expected
        } else {
            r matches Ok((data, kind)) && kind == FrameFileKind::Pgm && data@ == pgm_header(
                frame.width,
                frame.height,
            ) + frame.bytes@.subrange(0, expected)
        }
    } else {
        r matches Ok((data, kind)) && kind == FrameFileKind::Raw && data@ == frame.bytes@
    }
}

/// The contents of the file that a captured frame is saved as, and its kind.
pub fn frame_file_contents(frame: &CapturedFrame) -> (r: Result<(Vec<u8>, FrameFileKind), CameraError>)
    ensures
        frame_file_result(*frame, r),
{
    let code = frame.fourcc.as_str();
    let all = frame.bytes.len();
    assert(frame.bytes@.subrange(0, all as int) =~= frame.bytes@);
    if str_eq(code, "MJPG") {
        Ok((copy_prefix(frame.bytes.as_slice(), all), FrameFileKind::Jpeg))
    } else if str_eq(code, "GREY") || str_eq(code, "Y8") {
        let expected: u128 = area(frame.width, frame.height);
        if (all as u128) < expected {
            return Err(CameraError::GreyBufferTooSmall { got: all, expected });
        }
        let mut data = pgm_header_bytes(frame.width, frame.height);
        append_bytes(&mut data, frame.bytes.as_slice(), expected as usize);
        Ok((data, FrameFileKind::Pgm))
    } else {
        Ok((copy_prefix(frame.bytes.as_slice(), all), FrameFileKind::Raw))
    }
}

/// What saving a grayscale frame as PGM gives.
pub open spec fn pgm_result(frame: GrayscaleFrame, r: Result<Vec<u8>, CameraError>) -> bool {
    let expected = frame.width * frame.height;
    if frame.pixels@.len() != expected {
        r matches Err(CameraError::GrayscaleSizeMismatch { got, expected: e }) && got
            == frame.pixels@.len() && e == expected
    } else {
        r matches Ok(data) && data@ == pgm_header(frame.width, frame.height) + frame.pixels@
    }
}

/// The contents of a PGM file holding a grayscale frame; the frame must hold
/// exactly width times height pixels.
pub fn grayscale_pgm_contents(frame: &GrayscaleFrame) -> (r: Result<Vec<u8>, CameraError>)
    ensures
        pgm_result(*frame, r),
{
    let expected: u128 = area(frame.width, frame.height);
    let n = frame.pixels.len();
    if (n as u128) != expected {
        return Err(CameraError::GrayscaleSizeMismatch { got: n, expected });
    }
    let mut data = pgm_header_bytes(frame.width, frame.height);
    append_bytes(&mut data, frame.pixels.as_slice(), n);
    assert(frame.pixels@.subrange(0, n as int) =~= frame.pixels@);
    Ok(data)
}

impl CameraError {
    /// The text of the error.
    pub open spec fn text(self) -> Seq<char> {
        match self {
            CameraError::NoFrames => "capture returned no frames"@,
            CameraError::GreyBufferTooSmall { got, expected } => "grey frame buffer too small: got "@
                + decimal(got as nat) + " bytes, expected at least "@ + decimal(expected as nat),
            CameraError::YuyvBufferTooSmall { got, expected } => "yuyv frame buffer too small: got "@
                + decimal(got as nat) + " bytes, expected at least "@ + decimal(expected as nat),
            CameraError::JpegDecode { .. } => "failed to decode mjpg frame as jpeg"@,
            CameraError::JpegMetadataMissing => "jpeg decoder did not return image metadata"@,
            CameraError::UnsupportedJpegFormat => "unsupported jpeg pixel format"@,
            CameraError::UnsupportedPixelFormat { fourcc } =>
                "unsupported pixel format for grayscale conversion: "@ + fourcc@,
            CameraError::GrayscaleSizeMismatch { got, expected } =>
                "grayscale frame size mismatch: got "@ + decimal(got as nat) + " bytes, expected "@
                + decimal(expected as nat),
        }
    }

    /// The message that reports the error.
    pub fn message(&self) -> (r: String)
        ensures
            r@ == self.text(),
    {
        match self {
            CameraError::NoFrames => owned("capture returned no frames"),
            CameraError::GreyBufferTooSmall { got, expected } => {
                let mut m = owned("grey frame buffer too small: got ");
                m.append(u128_to_decimal(*got as u128).as_str());
                m.append(" bytes, expected at least ");
                m.append(u128_to_decimal(*expected).as_str());
                m
            },
            CameraError::YuyvBufferTooSmall { got, expected } => {
                let mut m = owned("yuyv frame buffer too small: got ");
                m.append(u128_to_decimal(*got as u128).as_str());
                m.append(" bytes, expected at least ");
                m.append(u128_to_decimal(*expected).as_str());
                m
            },
            CameraError::JpegDecode { .. } => owned("failed to decode mjpg frame as jpeg"),
            CameraError::JpegMetadataMissing => owned("jpeg decoder did not return image metadata"),
            CameraError::UnsupportedJpegFormat => owned("unsupported jpeg pixel format"),
            CameraError::UnsupportedPixelFormat { fourcc } => concat(
                "unsupported pixel format for grayscale conversion: ",
                fourcc.as_str(),
            ),
            CameraError::GrayscaleSizeMismatch { got, expected } => {
                let mut m = owned("grayscale frame size mismatch: got ");
                m.append(u128_to_decimal(*got as u128).as_str());
                m.append(" bytes, expected ");
                m.append(u128_to_decimal(*expected).as_str());
                m
            },
        }
    }
}

} // verus!
