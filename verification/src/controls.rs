//! V4L2 device controls as plain values: their names, types and flags as
//! text, finding a control by name, and the value to set from user input.
use vstd::prelude::*;
use crate::text::{
    ascii_lower, ascii_lower_char, chars_of, concat, i64_to_decimal, is_ascii_alphanumeric,
    is_ascii_alphanumeric_char, join, join_seq, owned, parse_i64, parse_i64_spec, seq_char_eq,
    signed_decimal, str_eq, string_from_chars, to_ascii_lowercase, trim, trim_str, utf8_lossy,
    utf8_lossy_text, views_of,
    ascii_lower_seq,
};

verus! {

/// `V4L2_CTRL_TYPE_INTEGER`.
pub const CTRL_TYPE_INTEGER: u32 = 1;
/// `V4L2_CTRL_TYPE_BOOLEAN`.
pub const CTRL_TYPE_BOOLEAN: u32 = 2;
/// `V4L2_CTRL_TYPE_MENU`.
pub const CTRL_TYPE_MENU: u32 = 3;
/// `V4L2_CTRL_TYPE_BUTTON`.
pub const CTRL_TYPE_BUTTON: u32 = 4;
/// `V4L2_CTRL_TYPE_INTEGER64`.
pub const CTRL_TYPE_INTEGER64: u32 = 5;
/// `V4L2_CTRL_TYPE_CTRL_CLASS`.
pub const CTRL_TYPE_CTRL_CLASS: u32 = 6;
/// `V4L2_CTRL_TYPE_STRING`.
pub const CTRL_TYPE_STRING: u32 = 7;
/// `V4L2_CTRL_TYPE_BITMASK`.
pub const CTRL_TYPE_BITMASK: u32 = 8;
/// `V4L2_CTRL_TYPE_INTEGER_MENU`.
pub const CTRL_TYPE_INTEGER_MENU: u32 = 9;

/// `V4L2_CTRL_FLAG_DISABLED`.
pub const CTRL_FLAG_DISABLED: u32 = 0x0001;
/// `V4L2_CTRL_FLAG_GRABBED`.
pub const CTRL_FLAG_GRABBED: u32 = 0x0002;
/// `V4L2_CTRL_FLAG_READ_ONLY`.
pub const CTRL_FLAG_READ_ONLY: u32 = 0x0004;
/// `V4L2_CTRL_FLAG_UPDATE`.
pub const CTRL_FLAG_UPDATE: u32 = 0x0008;
/// `V4L2_CTRL_FLAG_INACTIVE`.
pub const CTRL_FLAG_INACTIVE: u32 = 0x0010;
/// `V4L2_CTRL_FLAG_SLIDER`.
pub const CTRL_FLAG_SLIDER: u32 = 0x0020;
/// `V4L2_CTRL_FLAG_WRITE_ONLY`.
pub const CTRL_FLAG_WRITE_ONLY: u32 = 0x0040;
/// `V4L2_CTRL_FLAG_VOLATILE`.
pub const CTRL_FLAG_VOLATILE: u32 = 0x0080;

/// A control of a video device as the driver describes it.
#[derive(Debug, Clone, PartialEq, Eq)]
pub struct RawDeviceControl {
    pub id: u32,
    pub name: String,
    pub typ: u32,
    pub typ_name: String,
    pub minimum: i64,
    pub maximum: i64,
    pub step: u64,
    pub default: i64,
    pub flags_text: String,
    pub current: Option<String>,
}

/// Why a control could not be set.
#[derive(Debug, Clone, PartialEq, Eq)]
pub enum ControlError {
    /// No control has the requested name.
    NotFound { name: String },
    /// The value for a boolean control is none of the accepted words.
    InvalidBoolean { value: String },
    /// The value for an integer-like control is not a 64-bit integer.
    InvalidInteger { value: String },
    /// 64-bit controls cannot be set through the single-control call.
    Integer64Unsupported { name: String },
    /// The control's type cannot be set.
    UnsupportedType { name: String, typ_name: String },
}

/// The name of a control type.
pub open spec fn control_type_name_spec(typ: u32) -> Seq<char> {
    if typ == CTRL_TYPE_INTEGER {
        "Integer"@
    } else if typ == CTRL_TYPE_BOOLEAN {
        "Boolean"@
    } else if typ == CTRL_TYPE_MENU {
        "Menu"@
    } else if typ == CTRL_TYPE_BUTTON {
        "Button"@
    } else if typ == CTRL_TYPE_INTEGER64 {
        "Integer64"@
    } else if typ == CTRL_TYPE_CTRL_CLASS {
        "CtrlClass"@
    } else if typ == CTRL_TYPE_STRING {
        "String"@
    } else if typ == CTRL_TYPE_BITMASK {
        "Bitmask"@
    } else if typ == CTRL_TYPE_INTEGER_MENU {
        "IntegerMenu"@
    } else {
        "Unknown"@
    }
}

/// The name of a control type.
pub fn control_type_name(typ: u32) -> (r: String)
    ensures
        r@ == control_type_name_spec(typ),
{
    let name = if typ == CTRL_TYPE_INTEGER {
        "Integer"
    } else if typ == CTRL_TYPE_BOOLEAN {
        "Boolean"
    } else if typ == CTRL_TYPE_MENU {
        "Menu"
    } else if typ == CTRL_TYPE_BUTTON {
        "Button"
    } else if typ == CTRL_TYPE_INTEGER64 {
        "Integer64"
    } else if typ == CTRL_TYPE_CTRL_CLASS {
        "CtrlClass"
    } else if typ == CTRL_TYPE_STRING {
        "String"
    } else if typ == CTRL_TYPE_BITMASK {
        "Bitmask"
    } else if typ == CTRL_TYPE_INTEGER_MENU {
        "IntegerMenu"
    } else {
        "Unknown"
    };
    owned(name)
}

/// The names of the flags set in `flags`, in the order of their bits.
pub open spec fn flag_names(flags: u32) -> Seq<Seq<char>> {
    let p0 = if flags & CTRL_FLAG_DISABLED != 0 {
        seq!["disabled"@]
    } else {
        seq![]
    };
    let p1 = if flags & CTRL_FLAG_GRABBED != 0 {
        p0.push("grabbed"@)
    } else {
        p0
    };
    let p2 = if flags & CTRL_FLAG_READ_ONLY != 0 {
        p1.push("read-only"@)
    } else {
        p1
    };
    let p3 = if flags & CTRL_FLAG_UPDATE != 0 {
        p2.push("update"@)
    } else {
        p2
    };
    let p4 = if flags & CTRL_FLAG_INACTIVE != 0 {
        p3.push("inactive"@)
    } else {
        p3
    };
    let p5 = if flags & CTRL_FLAG_SLIDER != 0 {
        p4.push("slider"@)
    } else {
        p4
    };
    let p6 = if flags & CTRL_FLAG_WRITE_ONLY != 0 {
        p5.push("write-only"@)
    } else {
        p5
    };
    if flags & CTRL_FLAG_VOLATILE != 0 {
        p6.push("volatile"@)
    } else {
        p6
    }
}

/// The flags of a control as text: the names of the set flags joined by
/// `|`, or `none`.
pub open spec fn control_flags_text_spec(flags: u32) -> Seq<char> {
    if flag_names(flags).len() == 0 {
        "none"@
    } else {
        join_seq(flag_names(flags), "|"@)
    }
}

fn push_flag(parts: &mut Vec<String>, flags: u32, bit: u32, name: &str)
    ensures
        views_of(final(parts)@) == if flags & bit != 0 {
            views_of(old(parts)@).push(name@)
        } else {
            views_of(old(parts)@)
        },
{
    if flags & bit != 0 {
        parts.push(owned(name));
        assert(views_of(parts@) =~= views_of(old(parts)@).push(name@));
    }
}

/// The flags of a control as text.
pub fn control_flags_text(flags: u32) -> (r: String)
    ensures
        r@ == control_flags_text_spec(flags),
{
    let mut parts: Vec<String> = Vec::new();
    assert(views_of(parts@) =~= Seq::<Seq<char>>::empty());
    push_flag(&mut parts, flags, CTRL_FLAG_DISABLED, "disabled");
    assert(views_of(parts@) =~= (if flags & CTRL_FLAG_DISABLED != 0 {
        seq!["disabled"@]
    } else {
        seq![]
    }));
    push_flag(&mut parts, flags, CTRL_FLAG_GRABBED, "grabbed");
    push_flag(&mut parts, flags, CTRL_FLAG_READ_ONLY, "read-only");
    push_flag(&mut parts, flags, CTRL_FLAG_UPDATE, "update");
    push_flag(&mut parts, flags, CTRL_FLAG_INACTIVE, "inactive");
    push_flag(&mut parts, flags, CTRL_FLAG_SLIDER, "slider");
    push_flag(&mut parts, flags, CTRL_FLAG_WRITE_ONLY, "write-only");
    push_flag(&mut parts, flags, CTRL_FLAG_VOLATILE, "volatile");
    assert(views_of(parts@) == flag_names(flags));
    if parts.len() == 0 {
        owned("none")
    } else {
        join(&parts, "|")
    }
}

/// The ASCII letters and digits of a name, in lower case.
pub open spec fn normalized_name(s: Seq<char>) -> Seq<char>
    decreases s.len(),
{
    if s.len() == 0 {
        seq![]
    } else {
        let p = normalized_name(s.drop_last());
        if is_ascii_alphanumeric(s.last()) {
            p.push(ascii_lower(s.last()))
        } else {
            p
        }
    }
}

fn normalized_chars(name: &str) -> (r: Vec<char>)
    ensures
        r@ == normalized_name(name@),
{
    let v = chars_of(name);
    let mut out: Vec<char> = Vec::new();
    let mut i: usize = 0;
    while i < v.len()
        invariant
            i <= v@.len(),
            out@ == normalized_name(v@.subrange(0, i as int)),
        decreases v@.len() - i,
    {
        assert(v@.subrange(0, i + 1).drop_last() =~= v@.subrange(0, i as int));
        let c = v[i];
        if is_ascii_alphanumeric_char(c) {
            out.push(ascii_lower_char(c));
        }
        i = i + 1;
    }
    assert(v@.subrange(0, v@.len() as int) =~= v@);
    out
}

/// A control name reduced to its ASCII letters and digits in lower case, so
/// that "Exposure, Auto" and "exposure_auto" compare equal.
pub fn normalize_control_name(name: &str) -> (r: String)
    ensures
        r@ == normalized_name(name@),
{
    let v = normalized_chars(name);
    string_from_chars(v.as_slice())
}

/// Equality up to ASCII case (`str::eq_ignore_ascii_case`).
pub open spec fn eq_ignore_ascii_case_spec(a: Seq<char>, b: Seq<char>) -> bool {
    ascii_lower_seq(a) == ascii_lower_seq(b)
}

/// Whether `a` and `b` are equal up to ASCII case.
pub fn eq_ignore_ascii_case(a: &str, b: &str) -> (r: bool)
    ensures
        r == eq_ignore_ascii_case_spec(a@, b@),
{
    let la = to_ascii_lowercase(a);
    let lb = to_ascii_lowercase(b);
    str_eq(la.as_str(), lb.as_str())
}

/// Whether a control answers to `name`: equal up to ASCII case, or equal
/// after normalization.
pub open spec fn control_answers_to(control: RawDeviceControl, name: Seq<char>) -> bool {
    eq_ignore_ascii_case_spec(control.name@, name) || normalized_name(control.name@)
        == normalized_name(name)
}

/// The index of the first control that answers to `name`.
pub fn find_control(controls: &[RawDeviceControl], name: &str) -> (r: Option<usize>)
    ensures
        match r {
            Some(i) => i < controls@.len() && control_answers_to(controls@[i as int], name@)
                && forall|j: int| 0 <= j < i ==> !control_answers_to(#[trigger] controls@[j], name@),
            None => forall|j: int|
                0 <= j < controls@.len() ==> !control_answers_to(#[trigger] controls@[j], name@),
        },
{
    let wanted = normalized_chars(name);
    let mut i: usize = 0;
    while i < controls.len()
        invariant
            i <= controls@.len(),
            wanted@ == normalized_name(name@),
            forall|j: int| 0 <= j < i ==> !control_answers_to(#[trigger] controls@[j], name@),
        decreases controls@.len() - i,
    {
        let c = &controls[i];
        if eq_ignore_ascii_case(c.name.as_str(), name) {
            return Some(i);
        }
        let got = normalized_chars(c.name.as_str());
        if seq_char_eq(&got, &wanted) {
            return Some(i);
        }
        i = i + 1;
    }
    None
}

/// The words accepted as true and false for boolean controls, in lower case.
pub open spec fn boolean_word(lower: Seq<char>) -> Option<i64> {
    if lower == "1"@ || lower == "true"@ || lower == "yes"@ || lower == "on"@ {
        Some(1)
    } else if lower == "0"@ || lower == "false"@ || lower == "no"@ || lower == "off"@ {
        Some(0)
    } else {
        None
    }
}

pub open spec fn integer_like(typ: u32) -> bool {
    typ == CTRL_TYPE_INTEGER || typ == CTRL_TYPE_MENU || typ == CTRL_TYPE_BITMASK || typ
        == CTRL_TYPE_BUTTON
}

/// The value to set on `control` for the text `raw`.
pub open spec fn settable_value_result(control: RawDeviceControl, raw: Seq<char>, r: Result<
    i64,
    ControlError,
>) -> bool {
    if control.typ == CTRL_TYPE_BOOLEAN {
        match boolean_word(ascii_lower_seq(raw)) {
            Some(v) => r == Ok::<i64, ControlError>(v),
            None => r matches Err(ControlError::InvalidBoolean { value }) && value@ == raw,
        }
    } else if integer_like(control.typ) {
        match parse_i64_spec(raw) {
            Some(v) => r == Ok::<i64, ControlError>(v),
            None => r matches Err(ControlError::InvalidInteger { value }) && value@ == raw,
        }
    } else if control.typ == CTRL_TYPE_INTEGER64 {
        r matches Err(ControlError::Integer64Unsupported { name }) && name@ == control.name@
    } else {
        r matches Err(ControlError::UnsupportedType { name, typ_name }) && name@ == control.name@
            && typ_name@ == control.typ_name@
    }
}

/// The value to set on `control` for the text `raw`: boolean controls take
/// 1/true/yes/on and 0/false/no/off in any ASCII case, integer, menu,
/// bitmask and button controls a decimal 64-bit integer.
pub fn parse_settable_value(control: &RawDeviceControl, raw: &str) -> (r: Result<i64, ControlError>)
    ensures
        settable_value_result(*control, raw@, r),
{
    if control.typ == CTRL_TYPE_BOOLEAN {
        let lower = to_ascii_lowercase(raw);
        let l = lower.as_str();
        if str_eq(l, "1") || str_eq(l, "true") || str_eq(l, "yes") || str_eq(l, "on") {
            Ok(1)
        } else if str_eq(l, "0") || str_eq(l, "false") || str_eq(l, "no") || str_eq(l, "off") {
            Ok(0)
        } else {
            Err(ControlError::InvalidBoolean { value: owned(raw) })
        }
    } else if control.typ == CTRL_TYPE_INTEGER || control.typ == CTRL_TYPE_MENU || control.typ
        == CTRL_TYPE_BITMASK || control.typ == CTRL_TYPE_BUTTON {
        match parse_i64(raw) {
            Some(v) => Ok(v),
            None => Err(ControlError::InvalidInteger { value: owned(raw) }),
        }
    } else if control.typ == CTRL_TYPE_INTEGER64 {
        Err(ControlError::Integer64Unsupported { name: control.name.clone() })
    } else {
        Err(
            ControlError::UnsupportedType {
                name: control.name.clone(),
                typ_name: control.typ_name.clone(),
            },
        )
    }
}

/// The control id and 32-bit value to set for a request to set the control
/// named `name` to `raw`: the first control that answers to the name, and
/// its value truncated to 32 bits as the single-control call takes it.
pub fn settable_control(controls: &[RawDeviceControl], name: &str, raw: &str) -> (r: Result<
    (u32, i32),
    ControlError,
>)
    ensures
        match r {
            Ok((id, value)) => exists|i: int|
                0 <= i < controls@.len() && control_answers_to(#[trigger] controls@[i], name@)
                    && (forall|j: int| 0 <= j < i ==> !control_answers_to(#[trigger] controls@[j], name@))
                    && id == controls@[i].id && exists|v: i64| settable_value_result(
                    controls@[i],
                    raw@,
                    Ok(v),
                ) && value == v as i32,
            Err(ControlError::NotFound { name: n }) => n@ == name@ && forall|j: int|
                0 <= j < controls@.len() ==> !control_answers_to(#[trigger] controls@[j], name@),
            Err(e) => exists|i: int|
                0 <= i < controls@.len() && control_answers_to(#[trigger] controls@[i], name@)
                    && (forall|j: int| 0 <= j < i ==> !control_answers_to(#[trigger] controls@[j], name@))
                    && settable_value_result(controls@[i], raw@, Err(e)),
        },
{
    match find_control(controls, name) {
        None => Err(ControlError::NotFound { name: owned(name) }),
        Some(i) => {
            let control = &controls[i];
            match parse_settable_value(control, raw) {
                Ok(v) => {
                    let value: i32 = v as i32;
                    Ok((control.id, value))
                },
                Err(e) => Err(e),
            }
        },
    }
}

/// Whether the current value of a control of this type is read.
pub open spec fn readable_type(typ: u32) -> bool {
    integer_like(typ) || typ == CTRL_TYPE_BOOLEAN
}

/// Whether the current value of a control of this type is read.
pub fn is_readable_control_type(typ: u32) -> (r: bool)
    ensures
        r == readable_type(typ),
{
    typ == CTRL_TYPE_INTEGER || typ == CTRL_TYPE_BOOLEAN || typ == CTRL_TYPE_MENU || typ
        == CTRL_TYPE_BITMASK || typ == CTRL_TYPE_BUTTON
}

/// The current value of a control as text.
pub open spec fn control_value_text_spec(typ: u32, value: i32) -> Seq<char> {
    if typ == CTRL_TYPE_BOOLEAN {
        if value != 0 {
            "true"@
        } else {
            "false"@
        }
    } else {
        signed_decimal(value as int)
    }
}

/// The current value of a control as text: `true`/`false` for booleans,
/// the decimal value otherwise.
pub fn control_value_text(typ: u32, value: i32) -> (r: String)
    ensures
        r@ == control_value_text_spec(typ, value),
{
    if typ == CTRL_TYPE_BOOLEAN {
        if value != 0 {
            owned("true")
        } else {
            owned("false")
        }
    } else {
        i64_to_decimal(value as i64)
    }
}

/// Whether an error from the control enumeration ends it normally: the
/// driver answers "invalid argument" after the last control, which is an
/// error only when no control was found.
pub fn enumeration_ends(controls_found: usize, invalid_argument: bool) -> (r: bool)
    ensures
        r == (controls_found > 0 && invalid_argument),
{
    controls_found > 0 && invalid_argument
}

/// The bytes before the first NUL, or all of them.
pub open spec fn until_nul(bytes: Seq<u8>) -> Seq<u8>
    decreases bytes.len(),
{
    if bytes.len() == 0 {
        seq![]
    } else if bytes[0] == 0 {
        seq![]
    } else {
        seq![bytes[0]] + until_nul(bytes.drop_first())
    }
}

/// The name of a control from the driver's fixed-size name field: the bytes
/// before the first NUL, decoded as UTF-8 (lossily), without surrounding
/// whitespace.
pub fn control_name_from_bytes(raw: &[u8]) -> (r: String)
    ensures
        r@ == trim(utf8_lossy_text(until_nul(raw@))),
{
    let mut n: usize = 0;
    assert(raw@.subrange(0, 0) + raw@.subrange(0, raw@.len() as int) =~= raw@);
    while n < raw.len() && raw[n] != 0
        invariant
            n <= raw@.len(),
            until_nul(raw@) == raw@.subrange(0, n as int) + until_nul(raw@.subrange(
                n as int,
                raw@.len() as int,
            )),
        decreases raw@.len() - n,
    {
        let ghost rest = raw@.subrange(n as int, raw@.len() as int);
        assert(rest.drop_first() =~= raw@.subrange(n + 1, raw@.len() as int));
        assert(raw@.subrange(0, n + 1) =~= raw@.subrange(0, n as int) + seq![raw@[n as int]]);
        n = n + 1;
    }
    proof {
        let rest = raw@.subrange(n as int, raw@.len() as int);
        assert(until_nul(rest) =~= Seq::<u8>::empty());
        assert(raw@.subrange(0, n as int) + Seq::<u8>::empty() =~= raw@.subrange(0, n as int));
    }
    let mut prefix: Vec<u8> = Vec::new();
    let mut i: usize = 0;
    while i < n
        invariant
            n <= raw@.len(),
            i <= n,
            prefix@ =~= raw@.subrange(0, i as int),
        decreases n - i,
    {
        prefix.push(raw[i]);
        i = i + 1;
    }
    let text = utf8_lossy(prefix.as_slice());
    trim_str(text.as_str())
}

impl ControlError {
    /// The text of the error.
    pub open spec fn text(self) -> Seq<char> {
        match self {
            ControlError::NotFound { name } => "control '"@ + name@ + "' was not found"@,
            ControlError::InvalidBoolean { value } => "invalid boolean value '"@ + value@ + "'"@,
            ControlError::InvalidInteger { value } => "invalid integer value '"@ + value@ + "'"@,
            ControlError::Integer64Unsupported { name } => "control '"@ + name@
                + "' is INTEGER64; raw setter currently supports only values representable through VIDIOC_S_CTRL"@,
            ControlError::UnsupportedType { name, typ_name } => "control '"@ + name@
                + "' has unsupported settable type "@ + typ_name@,
        }
    }

    /// The message that reports the error.
    pub fn message(&self) -> (r: String)
        ensures
            r@ == self.text(),
    {
        match self {
            ControlError::NotFound { name } => {
                let mut m = concat("control '", name.as_str());
                m.append("' was not found");
                m
            },
            ControlError::InvalidBoolean { value } => {
                let mut m = concat("invalid boolean value '", value.as_str());
                m.append("'");
                m
            },
            ControlError::InvalidInteger { value } => {
                let mut m = concat("invalid integer value '", value.as_str());
                m.append("'");
                m
            },
            ControlError::Integer64Unsupported { name } => {
                let mut m = concat("control '", name.as_str());
                m.append(
                    "' is INTEGER64; raw setter currently supports only values representable through VIDIOC_S_CTRL",
                );
                m
            },
            ControlError::UnsupportedType { name, typ_name } => {
                let mut m = concat("control '", name.as_str());
                m.append("' has unsupported settable type ");
                m.append(typ_name.as_str());
                m
            },
        }
    }
}

} // verus!
