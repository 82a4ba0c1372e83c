//! The errors of payload reading and extraction, their messages, and the JSON
//! that carries a message to the host.

use vstd::prelude::*;
use vstd::string::StringExecFns;
use crate::text::{decimal, hex8, push_decimal, push_hex8, push_str, push_char};

verus! {

/// Which decompressor failed.
#[derive(Clone, Copy, Debug, PartialEq, Eq)]
pub enum Codec {
    Xz,
    Bzip2,
}

/// Why reading or extracting a payload failed.
#[derive(Clone, Debug)]
pub enum PayloadError {
    FileNotFound(String),
    PermissionDenied(String),
    Io(String),
    /// The four bytes found in place of the magic, as text and as a big-endian integer.
    InvalidMagic(String, u32),
    UnsupportedVersion(u64),
    ProtobufDecode(String),
    ManifestTooLarge(u64),
    /// The file's size and the least size of a payload.
    FileTooSmall(u64, u64),
    EmptyPath,
    UnexpectedEof(String),
    CodecFailure(Codec, String),
    InvalidInput(String),
}

/// The kinds of I/O failure that the error taxonomy tells apart.
#[derive(Clone, Copy, Debug, PartialEq, Eq)]
pub enum IoErrorKind {
    NotFound,
    PermissionDenied,
    UnexpectedEof,
    Other,
}

/// The message of an error, as the host shows it.
pub open spec fn error_message(e: PayloadError) -> Seq<char> {
    match e {
        PayloadError::FileNotFound(s) => "File not found: "@ + s@,
        PayloadError::PermissionDenied(s) => "Permission denied: "@ + s@,
        PayloadError::Io(s) => "IO error reading file: "@ + s@,
        PayloadError::InvalidMagic(s, v) => "Invalid magic bytes: expected 'CrAU' (0x43724155), got '"@
            + s@ + "' (0x"@ + hex8(v) + ")"@,
        PayloadError::UnsupportedVersion(v) => "Unsupported payload version: "@ + decimal(v as nat)
            + ". Only Version 2 is supported."@,
        PayloadError::ProtobufDecode(s) => "Protobuf decode error: "@ + s@,
        PayloadError::ManifestTooLarge(v) => "Manifest too large: "@ + decimal(v as nat)
            + " bytes (max 100MB). File may be corrupted."@,
        PayloadError::FileTooSmall(n, m) => "File too small ("@ + decimal(n as nat)
            + " bytes) to be a valid payload. Minimum size is "@ + decimal(m as nat) + " bytes."@,
        PayloadError::EmptyPath => "Path is empty"@,
        PayloadError::UnexpectedEof(s) => "Unexpected end of file while reading "@ + s@,
        PayloadError::CodecFailure(Codec::Xz, s) => "XZ decompression failed: "@ + s@,
        PayloadError::CodecFailure(Codec::Bzip2, s) => "Bzip2 decompression failed: "@ + s@,
        PayloadError::InvalidInput(s) => "Invalid input: "@ + s@,
    }
}

/// `s` with every double quote replaced by a single quote.
pub open spec fn json_safe(s: Seq<char>) -> Seq<char> {
    s.map_values(|c: char| if c == '"' { '\'' } else { c })
}

/// The JSON object that reports a failed inspection.
pub open spec fn inspection_error_json(message: Seq<char>) -> Seq<char> {
    "{\"error\": \""@ + json_safe(message) + "\"}"@
}

/// The JSON object that reports a failed extraction.
pub open spec fn extraction_error_json(message: Seq<char>) -> Seq<char> {
    "{\"status\":\"error\",\"message\":\""@ + json_safe(message) + "\"}"@
}

/// Appends `t` with every double quote replaced by a single quote.
fn push_json_safe(s: &mut String, t: &str)
    ensures
        final(s)@ == old(s)@ + json_safe(t@),
{
    let n = t.unicode_len();
    let ghost start = s@;
    let mut i: usize = 0;
    while i < n
        invariant
            n == t@.len(),
            i <= n,
            s@ == start + json_safe(t@.subrange(0, i as int)),
        decreases n - i,
    {
        let c = t.get_char(i);
        let d = if c == '"' {
            '\''
        } else {
            c
        };
        push_char(s, d);
        assert(json_safe(t@.subrange(0, i + 1)) =~= json_safe(t@.subrange(0, i as int)).push(d));
        i = i + 1;
    }
    assert(t@.subrange(0, n as int) =~= t@);
}

/// The JSON object `{"error": "<message>"}` that reports a failed inspection.
pub fn inspection_error_to_json(message: &str) -> (r: String)
    ensures
        r@ == inspection_error_json(message@),
{
    let mut s = String::new();
    push_str(&mut s, "{\"error\": \"");
    push_json_safe(&mut s, message);
    push_str(&mut s, "\"}");
    assert(s@ =~= inspection_error_json(message@));
    s
}

/// The JSON object `{"status":"error","message":"<message>"}` that reports a
/// failed extraction.
pub fn extraction_error_to_json(message: &str) -> (r: String)
    ensures
        r@ == extraction_error_json(message@),
{
    let mut s = String::new();
    push_str(&mut s, "{\"status\":\"error\",\"message\":\"");
    push_json_safe(&mut s, message);
    push_str(&mut s, "\"}");
    assert(s@ =~= extraction_error_json(message@));
    s
}

impl PayloadError {
    /// The error for a failed I/O operation of the given kind: a missing file
    /// and a refused permission keep their own kinds, an early end of file
    /// names what was being read, and anything else is an I/O error.
    pub fn from_io(kind: IoErrorKind, detail: String, reading: &str) -> (r: PayloadError)
        ensures
            kind == IoErrorKind::NotFound ==> (r matches PayloadError::FileNotFound(s) && s@ == detail@),
            kind == IoErrorKind::PermissionDenied ==> (r matches PayloadError::PermissionDenied(s)
                && s@ == detail@),
            kind == IoErrorKind::UnexpectedEof ==> (r matches PayloadError::UnexpectedEof(s) && s@
                == reading@),
            kind == IoErrorKind::Other ==> (r matches PayloadError::Io(s) && s@ == detail@),
    {
        match kind {
            IoErrorKind::NotFound => PayloadError::FileNotFound(detail),
            IoErrorKind::PermissionDenied => PayloadError::PermissionDenied(detail),
            IoErrorKind::UnexpectedEof => PayloadError::UnexpectedEof(String::from_str(reading)),
            IoErrorKind::Other => PayloadError::Io(detail),
        }
    }

    /// The error's message, as the host shows it.
    pub fn to_string(&self) -> (r: String)
        ensures
            r@ == error_message(*self),
    {
        let mut s = String::new();
        match self {
            PayloadError::FileNotFound(t) => {
                push_str(&mut s, "File not found: ");
                push_str(&mut s, t.as_str());
            },
            PayloadError::PermissionDenied(t) => {
                push_str(&mut s, "Permission denied: ");
                push_str(&mut s, t.as_str());
            },
            PayloadError::Io(t) => {
                push_str(&mut s, "IO error reading file: ");
                push_str(&mut s, t.as_str());
            },
            PayloadError::InvalidMagic(t, v) => {
                push_str(&mut s, "Invalid magic bytes: expected 'CrAU' (0x43724155), got '");
                push_str(&mut s, t.as_str());
                push_str(&mut s, "' (0x");
                push_hex8(&mut s, *v);
                push_str(&mut s, ")");
            },
            PayloadError::UnsupportedVersion(v) => {
                push_str(&mut s, "Unsupported payload version: ");
                push_decimal(&mut s, *v);
                push_str(&mut s, ". Only Version 2 is supported.");
            },
            PayloadError::ProtobufDecode(t) => {
                push_str(&mut s, "Protobuf decode error: ");
                push_str(&mut s, t.as_str());
            },
            PayloadError::ManifestTooLarge(v) => {
                push_str(&mut s, "Manifest too large: ");
                push_decimal(&mut s, *v);
                push_str(&mut s, " bytes (max 100MB). File may be corrupted.");
            },
            PayloadError::FileTooSmall(n, m) => {
                push_str(&mut s, "File too small (");
                push_decimal(&mut s, *n);
                push_str(&mut s, " bytes) to be a valid payload. Minimum size is ");
                push_decimal(&mut s, *m);
                push_str(&mut s, " bytes.");
            },
            PayloadError::EmptyPath => {
                push_str(&mut s, "Path is empty");
            },
            PayloadError::UnexpectedEof(t) => {
                push_str(&mut s, "Unexpected end of file while reading ");
                push_str(&mut s, t.as_str());
            },
            PayloadError::CodecFailure(Codec::Xz, t) => {
                push_str(&mut s, "XZ decompression failed: ");
                push_str(&mut s, t.as_str());
            },
            PayloadError::CodecFailure(Codec::Bzip2, t) => {
                push_str(&mut s, "Bzip2 decompression failed: ");
                push_str(&mut s, t.as_str());
            },
            PayloadError::InvalidInput(t) => {
                push_str(&mut s, "Invalid input: ");
                push_str(&mut s, t.as_str());
            },
        }
        assert(s@ =~= error_message(*self));
        s
    }
}

/// Errors of the host-facing layer.
#[derive(Clone, Debug)]
pub enum PayloadPackError {
    JniError(String),
    InvalidInput(String),
    OperationFailed(String),
}

pub open spec fn pack_error_message(e: PayloadPackError) -> Seq<char> {
    match e {
        PayloadPackError::JniError(s) => "JNI error: "@ + s@,
        PayloadPackError::InvalidInput(s) => "Invalid input: "@ + s@,
        PayloadPackError::OperationFailed(s) => "Operation failed: "@ + s@,
    }
}

impl PayloadPackError {
    /// The error's message.
    pub fn to_string(&self) -> (r: String)
        ensures
            r@ == pack_error_message(*self),
    {
        let mut s = String::new();
        match self {
            PayloadPackError::JniError(t) => {
                push_str(&mut s, "JNI error: ");
                push_str(&mut s, t.as_str());
            },
            PayloadPackError::InvalidInput(t) => {
                push_str(&mut s, "Invalid input: ");
                push_str(&mut s, t.as_str());
            },
            PayloadPackError::OperationFailed(t) => {
                push_str(&mut s, "Operation failed: ");
                push_str(&mut s, t.as_str());
            },
        }
        s
    }
}

} // verus!
