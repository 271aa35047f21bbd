//! The recognition model files: where they are kept, how a download becomes
//! the file's contents, and the checksum check.
use vstd::prelude::*;
use sha2::Digest;
use crate::enrollment::{join_path, joined_path};
use crate::text::{concat, ends_with, ends_with_spec, owned, str_eq};

verus! {

/// The directory that holds models unless `FACE_AUTHD_MODEL_DIR` says
/// otherwise.
pub const DEFAULT_MODEL_DIR: &'static str = "/var/lib/face-authd/models";

/// A model file and where it comes from.
#[derive(Debug, Clone, Copy, PartialEq, Eq)]
pub struct ModelSpec {
    /// Final (decompressed) file name stored on disk.
    pub filename: &'static str,
    /// Download URL; if it ends with `.bz2` the download is decompressed.
    pub url: &'static str,
    /// Hex-encoded SHA-256 of the decompressed file; empty means no check.
    pub sha256: &'static str,
}

/// The dlib 5-point face landmark predictor.
pub fn sp5_model() -> (m: ModelSpec)
    ensures
        m.filename@ == "shape_predictor_5_face_landmarks.dat"@,
        m.url@ == "https://github.com/davisking/dlib-models/raw/master/shape_predictor_5_face_landmarks.dat.bz2"@,
        m.sha256@ == ""@,
{
    ModelSpec {
        filename: "shape_predictor_5_face_landmarks.dat",
        url: "https://github.com/davisking/dlib-models/raw/master/shape_predictor_5_face_landmarks.dat.bz2",
        sha256: "",
    }
}

/// The dlib ResNet face recognition model (128-dimensional descriptors).
pub fn rec_model() -> (m: ModelSpec)
    ensures
        m.filename@ == "dlib_face_recognition_resnet_model_v1.dat"@,
        m.url@ == "http://dlib.net/files/dlib_face_recognition_resnet_model_v1.dat.bz2"@,
        m.sha256@ == ""@,
{
    ModelSpec {
        filename: "dlib_face_recognition_resnet_model_v1.dat",
        url: "http://dlib.net/files/dlib_face_recognition_resnet_model_v1.dat.bz2",
        sha256: "",
    }
}

/// The directory holding models: the configured one, else the default.
pub fn model_dir(configured: Option<String>) -> (r: String)
    ensures
        r@ == (match configured {
            Some(d) => d@,
            None => DEFAULT_MODEL_DIR@,
        }),
{
    match configured {
        Some(d) => d,
        None => owned(DEFAULT_MODEL_DIR),
    }
}

/// The file of a model in `dir`.
pub fn model_path(dir: &str, spec: &ModelSpec) -> (r: String)
    ensures
        r@ == joined_path(dir@, spec.filename@),
{
    join_path(dir, spec.filename)
}

/// Whether a model file is checked against a checksum.
pub fn checksum_required(spec: &ModelSpec) -> (r: bool)
    ensures
        r == (spec.sha256@.len() > 0),
{
    !spec.sha256.is_empty()
}

/// Why a model could not be made ready.
#[derive(Debug, Clone, PartialEq, Eq)]
pub enum ModelError {
    /// The download of `url` is not valid bzip2 data.
    DecompressionFailed { url: String },
    /// The file's SHA-256 is not the expected one.
    ChecksumMismatch { expected: String, actual: String },
}

/// The data that bzip2-decompressing `data` gives, if it is valid bzip2.
pub uninterp spec fn bz2_decompressed(data: Seq<u8>) -> Option<Seq<u8>>;

/// `bzip2::read::BzDecoder` read to the end over `data`.
#[verifier::external_body]
fn decompress_bz2(data: &[u8]) -> (r: Option<Vec<u8>>)
    ensures
        match bz2_decompressed(data@) {
            Some(d) => r matches Some(v) && v@ == d,
            None => r is None,
        },
{
    let mut out = Vec::new();
    std::io::Read::read_to_end(&mut bzip2::read::BzDecoder::new(data), &mut out).ok()?;
    Some(out)
}

/// The contents of a model file from its download: decompressed when the
/// URL ends with `.bz2`, as downloaded otherwise.
pub fn model_payload(spec: &ModelSpec, downloaded: Vec<u8>) -> (r: Result<Vec<u8>, ModelError>)
    ensures
        ends_with_spec(spec.url@, ".bz2"@) ==> match bz2_decompressed(downloaded@) {
            Some(d) => r matches Ok(v) && v@ == d,
            None => r matches Err(ModelError::DecompressionFailed { url }) && url@ == spec.url@,
        },
        !ends_with_spec(spec.url@, ".bz2"@) ==> (r matches Ok(v) && v@ == downloaded@),
{
    if ends_with(spec.url, ".bz2") {
        match decompress_bz2(downloaded.as_slice()) {
            Some(d) => Ok(d),
            None => Err(ModelError::DecompressionFailed { url: owned(spec.url) }),
        }
    } else {
        Ok(downloaded)
    }
}

/// The SHA-256 digest of `data` in lower-case hexadecimal.
pub uninterp spec fn sha256_hex(data: Seq<u8>) -> Seq<char>;

/// A lower-case hexadecimal digit.
pub open spec fn is_lower_hex_digit(c: char) -> bool {
    ('0' <= c && c <= '9') || ('a' <= c && c <= 'f')
}

/// `format!("{:x}", Sha256::digest(data))`: the 32 digest bytes as 64
/// lower-case hexadecimal digits, two per byte.
#[verifier::external_body]
fn sha256_lower_hex(data: &[u8]) -> (r: String)
    ensures
        r@ == sha256_hex(data@),
        r@.len() == 64,
        forall|i: int| 0 <= i < r@.len() ==> is_lower_hex_digit(#[trigger] r@[i]),
{
    format!("{:x}", sha2::Sha256::digest(data))
}

/// Checks `data` against an expected hex SHA-256; an expected text that is
/// not 64 lower-case hexadecimal digits matches no data.
pub fn verify_sha256_bytes(data: &[u8], expected: &str) -> (r: Result<(), ModelError>)
    ensures
        sha256_hex(data@) == expected@ ==> r is Ok,
        expected@.len() != 64 ==> r is Err,
        (exists|i: int| 0 <= i < expected@.len() && !is_lower_hex_digit(#[trigger] expected@[i]))
            ==> r is Err,
        sha256_hex(data@) != expected@ ==> (r matches Err(
            ModelError::ChecksumMismatch { expected: e, actual: a },
        ) && e@ == expected@ && a@ == sha256_hex(data@)),
{
    let actual = sha256_lower_hex(data);
    if str_eq(actual.as_str(), expected) {
        Ok(())
    } else {
        Err(ModelError::ChecksumMismatch { expected: owned(expected), actual })
    }
}

impl ModelError {
    /// The text of the error.
    pub open spec fn text(self) -> Seq<char> {
        match self {
            ModelError::DecompressionFailed { url } => "failed to decompress "@ + url@,
            ModelError::ChecksumMismatch { expected, actual } => "checksum mismatch: expected "@
                + expected@ + " got "@ + actual@,
        }
    }

    /// The message that reports the error.
    pub fn message(&self) -> (r: String)
        ensures
            r@ == self.text(),
    {
        match self {
            ModelError::DecompressionFailed { url } => concat("failed to decompress ", url.as_str()),
            ModelError::ChecksumMismatch { expected, actual } => {
                let mut m = concat("checksum mismatch: expected ", expected.as_str());
                m.append(" got ");
                m.append(actual.as_str());
                m
            },
        }
    }
}

} // verus!
