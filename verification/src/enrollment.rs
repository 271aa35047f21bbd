//! Where enrollments are stored, and the encrypted envelope that holds an
//! enrollment at rest (AES-256-GCM, nonce and ciphertext in Base64).
use vstd::prelude::*;
use base64::Engine;
use aes_gcm::aead::{Aead, KeyInit};
use crate::text::{
    chars_of, concat, decimal, is_alphanumeric, is_alphanumeric_char, owned, str_eq, string_from_chars,
    u64_to_decimal,
};

verus! {

/// The directory that holds enrollments unless `FACE_AUTHD_DATA_DIR` says
/// otherwise.
pub const DEFAULT_DATA_DIR: &'static str = "/var/lib/face-authd";

/// The file name of an enrollment inside its user's directory.
pub const ENROLLMENT_FILE: &'static str = "enrollment.json";

/// The format tag of encrypted enrollment envelopes.
pub const ENCRYPTED_FORMAT_V1: &'static str = "face-authd-enrollment-v1";

/// The description under which the enrollment key is kept in the keyring.
pub const KEYRING_KEY_DESC: &'static str = "face-authd:enrollment-key:v1";

/// The size of an AES-GCM nonce in bytes.
pub const NONCE_SIZE: usize = 12;

// ---------------------------------------------------------------------------
// Paths
// ---------------------------------------------------------------------------

/// `base` with `segment` pushed onto it as `PathBuf::push` does on Unix: an
/// absolute segment replaces the base; otherwise a `/` is put between them
/// unless the base is empty or already ends with one.
pub open spec fn joined_path(base: Seq<char>, segment: Seq<char>) -> Seq<char> {
    if segment.len() > 0 && segment[0] == '/' {
        segment
    } else if base.len() == 0 || base.last() == '/' {
        base + segment
    } else {
        base + seq!['/'] + segment
    }
}

/// `base` joined with `segment`.
pub fn join_path(base: &str, segment: &str) -> (r: String)
    ensures
        r@ == joined_path(base@, segment@),
{
    let b = chars_of(base);
    let s = chars_of(segment);
    if s.len() > 0 && s[0] == '/' {
        return owned(segment);
    }
    let mut r = owned(base);
    if !(b.len() == 0 || b[b.len() - 1] == '/') {
        r.append("/");
        proof {
            reveal_strlit("/");
        }
    }
    r.append(segment);
    r
}

/// The directory holding enrollments: the configured one, else the default.
pub fn enrollment_dir(configured: Option<String>) -> (r: String)
    ensures
        r@ == (match configured {
            Some(d) => d@,
            None => DEFAULT_DATA_DIR@,
        }),
{
    match configured {
        Some(d) => d,
        None => owned(DEFAULT_DATA_DIR),
    }
}

/// Whether a character is kept in a user's directory name.
pub open spec fn kept_in_username(c: char) -> bool {
    is_alphanumeric(c) || c == '-' || c == '_' || c == '.'
}

/// A user name with every character other than letters, digits, `-`, `_`
/// and `.` replaced by `_`.
pub open spec fn sanitized(name: Seq<char>) -> Seq<char> {
    name.map_values(|c: char| if kept_in_username(c) { c } else { '_' })
}

/// The directory name for a user: the name with every character other
/// than letters, digits, `-`, `_` and `.` replaced by `_`.
pub fn sanitize_username(name: &str) -> (r: String)
    ensures
        r@ == sanitized(name@),
        r@.len() == name@.len(),
        !r@.contains('/'),
{
    let v = chars_of(name);
    let mut out: Vec<char> = Vec::new();
    let mut i: usize = 0;
    while i < v.len()
        invariant
            i <= v@.len(),
            v@ == name@,
            out@ =~= sanitized(v@.subrange(0, i as int)),
        decreases v@.len() - i,
    {
        let c = v[i];
        if is_alphanumeric_char(c) || c == '-' || c == '_' || c == '.' {
            out.push(c);
        } else {
            out.push('_');
        }
        i = i + 1;
    }
    assert(v@.subrange(0, v@.len() as int) =~= v@);
    proof {
        if out@.contains('/') {
            let k = choose|k: int| 0 <= k < out@.len() && out@[k] == '/';
            assert(kept_in_username(v@[k]));
            assert(v@[k] == '/');
            assert(!is_alphanumeric('/'));
        }
    }
    string_from_chars(out.as_slice())
}

/// The file that holds a user's enrollment.
pub open spec fn enrollment_path_spec(data_dir: Seq<char>, username: Seq<char>) -> Seq<char> {
    joined_path(joined_path(data_dir, sanitized(username)), ENROLLMENT_FILE@)
}

/// The file that holds a user's enrollment: `enrollment.json` in the user's
/// directory under `data_dir`.
pub fn enrollment_path(data_dir: &str, username: &str) -> (r: String)
    ensures
        r@ == enrollment_path_spec(data_dir@, username@),
{
    let user_dir = join_path(data_dir, sanitize_username(username).as_str());
    join_path(user_dir.as_str(), ENROLLMENT_FILE)
}

// ---------------------------------------------------------------------------
// Encryption
// ---------------------------------------------------------------------------

/// Why an enrollment could not be sealed or opened.
#[derive(Debug, Clone, PartialEq, Eq)]
pub enum EnrollmentError {
    /// The key in the keyring does not hold 32 bytes.
    InvalidKeySize { got: usize },
    /// The envelope at `path` carries a format tag other than the supported one.
    UnsupportedFormat { format: String, path: String },
    /// The nonce is not valid Base64.
    InvalidNonceEncoding,
    /// The nonce does not hold 12 bytes.
    InvalidNonceSize { got: usize },
    /// The ciphertext is not valid Base64.
    InvalidCiphertextEncoding,
    /// The ciphertext does not decrypt under the key and nonce.
    DecryptionFailed,
    /// The plaintext could not be encrypted.
    EncryptionFailed,
}

/// An encrypted enrollment as stored on disk.
#[derive(Debug, Clone, PartialEq, Eq)]
pub struct EncryptedEnrollment {
    pub format: String,
    pub nonce_b64: String,
    pub ciphertext_b64: String,
}

/// The key that a keyring payload gives: the payload itself when it holds
/// 32 bytes.
pub open spec fn fixed_key(payload: Seq<u8>) -> Result<Seq<u8>, EnrollmentError> {
    if payload.len() == 32 {
        Ok(payload)
    } else {
        Err(EnrollmentError::InvalidKeySize { got: payload.len() as usize })
    }
}

/// The enrollment key from the keyring payload, which must hold 32 bytes.
pub fn as_fixed_key(decoded: &[u8]) -> (r: Result<[u8; 32], EnrollmentError>)
    ensures
        match fixed_key(decoded@) {
            Ok(k) => r matches Ok(key) && key@ == k,
            Err(e) => r == Err::<[u8; 32], EnrollmentError>(e),
        },
{
    if decoded.len() != 32 {
        return Err(EnrollmentError::InvalidKeySize { got: decoded.len() });
    }
    let mut out = [0u8; 32];
    let mut i: usize = 0;
    while i < 32
        invariant
            decoded@.len() == 32,
            i <= 32,
            forall|j: int| 0 <= j < i ==> out@[j] == decoded@[j],
        decreases 32 - i,
    {
        out[i] = decoded[i];
        i = i + 1;
    }
    assert(out@ =~= decoded@);
    Ok(out)
}

/// The digit of a 6-bit value in the standard Base64 alphabet
/// (`A`-`Z`, `a`-`z`, `0`-`9`, `+`, `/`).
pub open spec fn base64_digit(v: int) -> char {
    if v < 26 {
        (65 + v) as char
    } else if v < 52 {
        (97 + v - 26) as char
    } else if v < 62 {
        (48 + v - 52) as char
    } else if v == 62 {
        '+'
    } else {
        '/'
    }
}

/// Where each value puts its digit: the digits of distinct values differ,
/// and none is the padding `=`.
proof fn lemma_base64_digit(u: int, v: int)
    requires
        0 <= u < 64,
        0 <= v < 64,
    ensures
        base64_digit(u) != '=',
        base64_digit(u) == base64_digit(v) ==> u == v,
{
    let cu = base64_digit(u) as int;
    let cv = base64_digit(v) as int;
    assert(cu == (if u < 26 { 65 + u } else if u < 52 { 71 + u } else if u < 62 { u - 4 } else if u
        == 62 { 43 } else { 47 }));
    assert(cv == (if v < 26 { 65 + v } else if v < 52 { 71 + v } else if v < 62 { v - 4 } else if v
        == 62 { 43 } else { 47 }));
}

/// The standard Base64 encoding of `data` with padding: each group of
/// three bytes as four digits of six bits, a last group of one or two
/// bytes as two or three digits followed by `=` to four.
pub open spec fn base64_encoded(data: Seq<u8>) -> Seq<char>
    decreases data.len(),
{
    if data.len() == 0 {
        seq![]
    } else {
        let b0 = data[0] as int;
        let b1 = if data.len() > 1 { data[1] as int } else { 0 };
        let b2 = if data.len() > 2 { data[2] as int } else { 0 };
        let first = base64_digit(b0 / 4);
        let second = base64_digit((b0 % 4) * 16 + b1 / 16);
        let third = base64_digit((b1 % 16) * 4 + b2 / 64);
        let fourth = base64_digit(b2 % 64);
        if data.len() == 1 {
            seq![first, second, '=', '=']
        } else if data.len() == 2 {
            seq![first, second, third, '=']
        } else {
            seq![first, second, third, fourth] + base64_encoded(data.subrange(3, data.len() as int))
        }
    }
}

/// The bytes that a text decodes to in standard Base64 with canonical
/// padding: the data whose encoding the text is, if there is one.
pub open spec fn base64_decoded(text: Seq<char>) -> Option<Seq<u8>> {
    if exists|d: Seq<u8>| base64_encoded(d) == text {
        Some(choose|d: Seq<u8>| base64_encoded(d) == text)
    } else {
        None
    }
}

proof fn lemma_base64_group(a0: int, a1: int, a2: int, b0: int, b1: int, b2: int)
    requires
        0 <= a0 < 256,
        0 <= a1 < 256,
        0 <= a2 < 256,
        0 <= b0 < 256,
        0 <= b1 < 256,
        0 <= b2 < 256,
        a0 / 4 == b0 / 4,
        (a0 % 4) * 16 + a1 / 16 == (b0 % 4) * 16 + b1 / 16,
    ensures
        a0 == b0,
        a1 / 16 == b1 / 16,
        (a1 % 16) * 4 + a2 / 64 == (b1 % 16) * 4 + b2 / 64 ==> a1 == b1 && a2 / 64 == b2 / 64,
        (a1 % 16) * 4 + a2 / 64 == (b1 % 16) * 4 + b2 / 64 && a2 % 64 == b2 % 64 ==> a2 == b2,
{
}

proof fn lemma_base64_encoded_len(d: Seq<u8>)
    ensures
        base64_encoded(d).len() == 4 * ((d.len() + 2) / 3),
    decreases d.len(),
{
    if d.len() > 2 {
        lemma_base64_encoded_len(d.subrange(3, d.len() as int));
    }
}

/// Distinct data have distinct Base64 encodings.
proof fn lemma_base64_injective(a: Seq<u8>, b: Seq<u8>)
    requires
        base64_encoded(a) == base64_encoded(b),
    ensures
        a == b,
    decreases a.len(),
{
    let e = base64_encoded(a);
    lemma_base64_encoded_len(a);
    lemma_base64_encoded_len(b);
    if a.len() == 0 || b.len() == 0 {
        assert(a =~= b);
        return;
    }
    let a0 = a[0] as int;
    let a1 = if a.len() > 1 { a[1] as int } else { 0 };
    let a2 = if a.len() > 2 { a[2] as int } else { 0 };
    let b0 = b[0] as int;
    let b1 = if b.len() > 1 { b[1] as int } else { 0 };
    let b2 = if b.len() > 2 { b[2] as int } else { 0 };
    lemma_base64_digit(a0 / 4, b0 / 4);
    lemma_base64_digit((a0 % 4) * 16 + a1 / 16, (b0 % 4) * 16 + b1 / 16);
    lemma_base64_digit((a1 % 16) * 4 + a2 / 64, (b1 % 16) * 4 + b2 / 64);
    lemma_base64_digit(a2 % 64, b2 % 64);
    lemma_base64_digit((b1 % 16) * 4 + b2 / 64, (a1 % 16) * 4 + a2 / 64);
    lemma_base64_digit(b2 % 64, a2 % 64);
    let f = base64_encoded(b);
    assert(e[0] == base64_digit(a0 / 4) && f[0] == base64_digit(b0 / 4));
    assert(e[1] == base64_digit((a0 % 4) * 16 + a1 / 16) && f[1] == base64_digit((b0 % 4) * 16 + b1
        / 16));
    assert(a0 / 4 == b0 / 4);
    assert((a0 % 4) * 16 + a1 / 16 == (b0 % 4) * 16 + b1 / 16);
    lemma_base64_group(a0, a1, a2, b0, b1, b2);
    if a.len() == 1 {
        assert(e[2] == '=');
        assert(b.len() == 1);
        assert(a =~= b);
    } else if a.len() == 2 {
        assert(e[2] == base64_digit((a1 % 16) * 4 + a2 / 64) && e[3] == '=');
        assert(b.len() == 2);
        assert(f[2] == base64_digit((b1 % 16) * 4 + b2 / 64));
        assert(a1 == b1);
        assert(a =~= b);
    } else {
        assert(e[2] == base64_digit((a1 % 16) * 4 + a2 / 64) && e[3] == base64_digit(a2 % 64));
        assert(b.len() >= 3);
        assert(f[2] == base64_digit((b1 % 16) * 4 + b2 / 64) && f[3] == base64_digit(b2 % 64));
        assert(a1 == b1 && a2 == b2);
        let ra = a.subrange(3, a.len() as int);
        let rb = b.subrange(3, b.len() as int);
        assert(base64_encoded(ra) =~= e.subrange(4, e.len() as int));
        assert(base64_encoded(rb) =~= base64_encoded(b).subrange(4, e.len() as int));
        lemma_base64_injective(ra, rb);
        assert(a =~= b) by {
            assert forall|i: int| 0 <= i < a.len() implies a[i] == b[i] by {
                if i >= 3 {
                    assert(a[i] == ra[i - 3]);
                    assert(b[i] == rb[i - 3]);
                } else if i == 0 {
                } else if i == 1 {
                    assert(a[1] as int == a1 && b[1] as int == b1);
                } else {
                    assert(a[2] as int == a2 && b[2] as int == b2);
                }
            }
        }
    }
}

/// Decoding the Base64 encoding of data gives the data back.
pub proof fn lemma_base64_round_trip(d: Seq<u8>)
    ensures
        base64_decoded(base64_encoded(d)) == Some(d),
{
    let c = choose|c: Seq<u8>| base64_encoded(c) == base64_encoded(d);
    lemma_base64_injective(c, d);
}

/// `base64::engine::general_purpose::STANDARD.encode`: the standard
/// alphabet with padding.
#[verifier::external_body]
fn base64_encode(data: &[u8]) -> (r: String)
    requires
        data@.len() <= usize::MAX / 2,
    ensures
        r@ == base64_encoded(data@),
{
    base64::engine::general_purpose::STANDARD.encode(data)
}

/// `base64::engine::general_purpose::STANDARD.decode` of a text's bytes:
/// the standard alphabet, padding required and canonical, no trailing bits,
/// so it succeeds exactly on the encodings of data.
#[verifier::external_body]
fn base64_decode(text: &str) -> (r: Option<Vec<u8>>)
    ensures
        match base64_decoded(text@) {
            Some(d) => r matches Some(v) && v@ == d,
            None => r is None,
        },
{
    base64::engine::general_purpose::STANDARD.decode(text).ok()
}

/// The AES-256-GCM ciphertext (with its tag) of `plaintext` under `key` and
/// `nonce`, without associated data; `None` if the plaintext is too long.
pub uninterp spec fn aes256gcm_sealed(key: Seq<u8>, nonce: Seq<u8>, plaintext: Seq<u8>) -> Option<
    Seq<u8>,
>;

/// The AES-256-GCM plaintext of `ciphertext` under `key` and `nonce`, without
/// associated data; `None` if it does not authenticate.
pub uninterp spec fn aes256gcm_opened(key: Seq<u8>, nonce: Seq<u8>, ciphertext: Seq<u8>) -> Option<
    Seq<u8>,
>;

/// `Aes256Gcm::encrypt`; the ciphertext decrypts to the plaintext under the
/// same key and nonce.
#[verifier::external_body]
fn aes256gcm_encrypt(key: &[u8; 32], nonce: &[u8; 12], plaintext: &[u8]) -> (r: Option<Vec<u8>>)
    ensures
        match aes256gcm_sealed(key@, nonce@, plaintext@) {
            Some(c) => r matches Some(v) && v@ == c,
            None => r is None,
        },
        r matches Some(v) ==> aes256gcm_opened(key@, nonce@, v@) == Some(plaintext@),
        r matches Some(v) ==> v@.len() == plaintext@.len() + 16,
{
    let cipher = aes_gcm::Aes256Gcm::new(key.into());
    cipher.encrypt(nonce.into(), plaintext).ok()
}

/// `Aes256Gcm::decrypt`.
#[verifier::external_body]
fn aes256gcm_decrypt(key: &[u8; 32], nonce: &[u8; 12], ciphertext: &[u8]) -> (r: Option<Vec<u8>>)
    ensures
        match aes256gcm_opened(key@, nonce@, ciphertext@) {
            Some(p) => r matches Some(v) && v@ == p,
            None => r is None,
        },
{
    let cipher = aes_gcm::Aes256Gcm::new(key.into());
    cipher.decrypt(nonce.into(), ciphertext).ok()
}

/// What opening an envelope with `key` gives: its plaintext, or the first
/// failure among the nonce's encoding and size, the ciphertext's encoding,
/// and decryption.
pub open spec fn opened(key: Seq<u8>, sealed: EncryptedEnrollment) -> Result<Seq<u8>, EnrollmentError> {
    match base64_decoded(sealed.nonce_b64@) {
        None => Err(EnrollmentError::InvalidNonceEncoding),
        Some(nonce) => if nonce.len() != 12 {
            Err(EnrollmentError::InvalidNonceSize { got: nonce.len() as usize })
        } else {
            match base64_decoded(sealed.ciphertext_b64@) {
                None => Err(EnrollmentError::InvalidCiphertextEncoding),
                Some(ct) => match aes256gcm_opened(key, nonce, ct) {
                    None => Err(EnrollmentError::DecryptionFailed),
                    Some(p) => Ok(p),
                },
            }
        },
    }
}

/// Seals an enrollment's plaintext under `key` with `nonce`: format tag v1,
/// nonce and ciphertext in Base64. A sealed envelope opens with the same key
/// to the same plaintext.
pub fn seal_enrollment(key: &[u8; 32], nonce: &[u8; 12], plaintext: &[u8]) -> (r: Result<
    EncryptedEnrollment,
    EnrollmentError,
>)
    requires
        plaintext@.len() <= usize::MAX / 4,
    ensures
        match aes256gcm_sealed(key@, nonce@, plaintext@) {
            None => r == Err::<EncryptedEnrollment, EnrollmentError>(
                EnrollmentError::EncryptionFailed,
            ),
            Some(c) => r matches Ok(env) && env.format@ == ENCRYPTED_FORMAT_V1@ && env.nonce_b64@
                == base64_encoded(nonce@) && env.ciphertext_b64@ == base64_encoded(c),
        },
        r matches Ok(env) ==> opened(key@, env) == Ok::<Seq<u8>, EnrollmentError>(plaintext@),
{
    let ciphertext = match aes256gcm_encrypt(key, nonce, plaintext) {
        Some(c) => c,
        None => return Err(EnrollmentError::EncryptionFailed),
    };
    let nonce_b64 = base64_encode(nonce.as_slice());
    let ciphertext_b64 = base64_encode(ciphertext.as_slice());
    proof {
        lemma_base64_round_trip(nonce@);
        lemma_base64_round_trip(ciphertext@);
    }
    Ok(EncryptedEnrollment { format: owned(ENCRYPTED_FORMAT_V1), nonce_b64, ciphertext_b64 })
}

/// Checks the format tag of the envelope read from `path`, before the key
/// is fetched.
pub fn check_envelope_format(sealed: &EncryptedEnrollment, path: &str) -> (r: Result<
    (),
    EnrollmentError,
>)
    ensures
        sealed.format@ == ENCRYPTED_FORMAT_V1@ ==> r is Ok,
        sealed.format@ != ENCRYPTED_FORMAT_V1@ ==> (r matches Err(
            EnrollmentError::UnsupportedFormat { format, path: p },
        ) && format@ == sealed.format@ && p@ == path@),
{
    if str_eq(sealed.format.as_str(), ENCRYPTED_FORMAT_V1) {
        Ok(())
    } else {
        Err(EnrollmentError::UnsupportedFormat { format: sealed.format.clone(), path: owned(path) })
    }
}

/// Opens an envelope with `key`.
pub fn decrypt_blob(key: &[u8; 32], sealed: &EncryptedEnrollment) -> (r: Result<
    Vec<u8>,
    EnrollmentError,
>)
    ensures
        match opened(key@, *sealed) {
            Ok(p) => r matches Ok(v) && v@ == p,
            Err(e) => r == Err::<Vec<u8>, EnrollmentError>(e),
        },
{
    let nonce_bytes = match base64_decode(sealed.nonce_b64.as_str()) {
        Some(n) => n,
        None => return Err(EnrollmentError::InvalidNonceEncoding),
    };
    if nonce_bytes.len() != NONCE_SIZE {
        return Err(EnrollmentError::InvalidNonceSize { got: nonce_bytes.len() });
    }
    let ciphertext = match base64_decode(sealed.ciphertext_b64.as_str()) {
        Some(c) => c,
        None => return Err(EnrollmentError::InvalidCiphertextEncoding),
    };
    let mut nonce = [0u8; 12];
    let mut i: usize = 0;
    while i < 12
        invariant
            nonce_bytes@.len() == 12,
            i <= 12,
            forall|j: int| 0 <= j < i ==> nonce@[j] == nonce_bytes@[j],
        decreases 12 - i,
    {
        nonce[i] = nonce_bytes[i];
        i = i + 1;
    }
    assert(nonce@ =~= nonce_bytes@);
    match aes256gcm_decrypt(key, &nonce, ciphertext.as_slice()) {
        Some(p) => Ok(p),
        None => Err(EnrollmentError::DecryptionFailed),
    }
}

impl EnrollmentError {
    /// The text of the error.
    pub open spec fn text(self) -> Seq<char> {
        match self {
            EnrollmentError::InvalidKeySize { got } =>
                "invalid enrollment key size in keyring: expected 32 bytes, got "@ + decimal(got as nat),
            EnrollmentError::UnsupportedFormat { format, path } => "unsupported enrollment format '"@
                + format@ + "' at "@ + path@,
            EnrollmentError::InvalidNonceEncoding => "invalid nonce encoding"@,
            EnrollmentError::InvalidNonceSize { got } => "invalid nonce size: expected 12, got "@
                + decimal(got as nat),
            EnrollmentError::InvalidCiphertextEncoding => "invalid ciphertext encoding"@,
            EnrollmentError::DecryptionFailed => "decryption failed"@,
            EnrollmentError::EncryptionFailed => "encryption failed"@,
        }
    }

    /// The message that reports the error.
    pub fn message(&self) -> (r: String)
        ensures
            r@ == self.text(),
    {
        match self {
            EnrollmentError::InvalidKeySize { got } => concat(
                "invalid enrollment key size in keyring: expected 32 bytes, got ",
                u64_to_decimal(*got as u64).as_str(),
            ),
            EnrollmentError::UnsupportedFormat { format, path } => {
                let mut m = concat("unsupported enrollment format '", format.as_str());
                m.append("' at ");
                m.append(path.as_str());
                m
            },
            EnrollmentError::InvalidNonceEncoding => owned("invalid nonce encoding"),
            EnrollmentError::InvalidNonceSize { got } => concat(
                "invalid nonce size: expected 12, got ",
                u64_to_decimal(*got as u64).as_str(),
            ),
            EnrollmentError::InvalidCiphertextEncoding => owned("invalid ciphertext encoding"),
            EnrollmentError::DecryptionFailed => owned("decryption failed"),
            EnrollmentError::EncryptionFailed => owned("encryption failed"),
        }
    }
}

} // verus!
