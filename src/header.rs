//! The fixed 24-byte payload header.

use vstd::prelude::*;
use vstd::utf8::{valid_utf8, decode_utf8};
use vstd::string::StringExecFns;
use crate::error::PayloadError;

verus! {

/// Bytes in the header of a version 2 payload.
pub const HEADER_SIZE: u64 = 24;

/// The largest manifest accepted: 100 MiB.
pub const MAX_MANIFEST_SIZE: u64 = 104857600;

/// The header of a payload.
#[derive(Clone, Copy, Debug, PartialEq, Eq)]
pub struct PayloadHeader {
    /// Payload format version; only 2 is accepted.
    pub version: u64,
    /// Size of the manifest in bytes.
    pub manifest_size: u64,
    /// Size of the metadata signature in bytes.
    pub metadata_signature_size: u32,
}

/// The magic at the start of every payload: "CrAU".
pub open spec fn magic() -> Seq<u8> {
    seq![0x43u8, 0x72u8, 0x41u8, 0x55u8]
}

/// The bytes `s` read as a big-endian unsigned integer.
pub open spec fn be(s: Seq<u8>) -> nat
    decreases s.len(),
{
    if s.len() == 0 {
        0
    } else {
        be(s.drop_last()) * 256 + s.last() as nat
    }
}

pub open spec fn pow256(k: nat) -> nat
    decreases k,
{
    if k == 0 {
        1
    } else {
        256 * pow256((k - 1) as nat)
    }
}

proof fn lemma_be_bound(s: Seq<u8>)
    ensures
        be(s) < pow256(s.len()),
    decreases s.len(),
{
    if s.len() > 0 {
        lemma_be_bound(s.drop_last());
        let k = (s.len() - 1) as nat;
        assert(be(s.drop_last()) * 256 + s.last() < 256 * pow256(k)) by (nonlinear_arith)
            requires
                be(s.drop_last()) < pow256(k),
                s.last() < 256,
        ;
    }
}

/// Reads `n` bytes at `at` as a big-endian integer.
pub fn read_be(b: &[u8], at: usize, n: usize) -> (r: u64)
    requires
        n <= 8,
        at + n <= b@.len(),
    ensures
        r as nat == be(b@.subrange(at as int, at + n)),
{
    let mut v: u64 = 0;
    let mut i: usize = 0;
    while i < n
        invariant
            i <= n <= 8,
            at + n <= b@.len(),
            v as nat == be(b@.subrange(at as int, at + i)),
        decreases n - i,
    {
        proof {
            lemma_be_bound(b@.subrange(at as int, at + i));
            reveal_with_fuel(pow256, 9);
            assert(pow256(i as nat) <= pow256(7)) by {
                lemma_pow256_monotone(i as nat, 7);
            }
            assert(b@.subrange(at as int, at + i + 1).drop_last() =~= b@.subrange(at as int, at + i));
            assert(pow256(7) == 0x100_0000_0000_0000);
            assert(b@.subrange(at as int, at + i).len() == i);
            assert(v < 0x100_0000_0000_0000);
            assert(v * 256 + 255 <= 0xffff_ffff_ffff_ffff) by (nonlinear_arith)
                requires
                    v < 0x100_0000_0000_0000,
            ;
        }
        assert(at + i < b.len());
        let byte = b[at + i];
        v = v * 256 + byte as u64;
        i = i + 1;
    }
    v
}

proof fn lemma_pow256_monotone(a: nat, b: nat)
    requires
        a <= b,
    ensures
        pow256(a) <= pow256(b),
    decreases b - a,
{
    if a < b {
        lemma_pow256_monotone(a, (b - 1) as nat);
        lemma_pow256_positive((b - 1) as nat);
    }
}

proof fn lemma_pow256_positive(k: nat)
    ensures
        pow256(k) > 0,
    decreases k,
{
    if k > 0 {
        lemma_pow256_positive((k - 1) as nat);
    }
}

/// What String::from_utf8_lossy makes of `b`.
pub uninterp spec fn lossy_text(b: Seq<u8>) -> Seq<char>;

/// Relies on String::from_utf8_lossy: the bytes as text, each invalid
/// sequence replaced by U+FFFD; valid UTF-8 comes through unchanged.
#[verifier::external_body]
fn lossy_utf8(b: &[u8]) -> (r: String)
    ensures
        r@ == lossy_text(b@),
        valid_utf8(b@) ==> r@ == decode_utf8(b@),
{
    String::from_utf8_lossy(b).into_owned()
}

/// Checks that the first four bytes of `first` are the magic "CrAU"; only
/// those four bytes are looked at.  Fewer than four bytes are an early end of
/// the header.
pub fn check_magic(first: &[u8]) -> (r: Result<(), PayloadError>)
    ensures
        first@.len() < 4 ==> (r matches Err(PayloadError::UnexpectedEof(w)) && w@ == "header"@),
        first@.len() >= 4 ==> {
            let m = first@.subrange(0, 4);
            if m != magic() {
                r matches Err(PayloadError::InvalidMagic(t, v)) && t@ == lossy_text(m) && (
                valid_utf8(m) ==> t@ == decode_utf8(m)) && v as nat == be(m)
            } else {
                r is Ok
            }
        },
{
    if first.len() < 4 {
        return Err(PayloadError::UnexpectedEof(String::from_str("header")));
    }
    let p = first;
    if !(p[0] == 0x43 && p[1] == 0x72 && p[2] == 0x41 && p[3] == 0x55) {
        let observed = lossy_utf8(vstd::slice::slice_subrange(p, 0, 4));
        let word = read_be(p, 0, 4);
        proof {
            lemma_be_bound(p@.subrange(0, 4));
            reveal_with_fuel(pow256, 5);
        }
        assert(p@.subrange(0, 4) != magic()) by {
            if p@.subrange(0, 4) == magic() {
                assert(p@.subrange(0, 4)[0] == p@[0]);
                assert(p@.subrange(0, 4)[1] == p@[1]);
                assert(p@.subrange(0, 4)[2] == p@[2]);
                assert(p@.subrange(0, 4)[3] == p@[3]);
            }
        }
        return Err(PayloadError::InvalidMagic(observed, word as u32));
    }
    assert(p@.subrange(0, 4) =~= magic());
    Ok(())
}

pub open spec fn version_of(p: Seq<u8>) -> nat {
    be(p.subrange(4, 12))
}

pub open spec fn manifest_size_of(p: Seq<u8>) -> nat {
    be(p.subrange(12, 20))
}

pub open spec fn signature_size_of(p: Seq<u8>) -> nat {
    be(p.subrange(20, 24))
}

/// Checks the header of a payload of `file_size` bytes whose first bytes are
/// `prefix` (at least 24 of them where the file has that many).  The checks
/// come in this order: the file is at least 24 bytes long; the magic is
/// "CrAU" (only the first four bytes decide this); the big-endian version
/// at offset 4 is 2; the big-endian manifest size at offset 12 is at most
/// 100 MiB.  The metadata signature size is the big-endian `u32` at offset 20.
pub fn parse_header(file_size: u64, prefix: &[u8]) -> (r: Result<PayloadHeader, PayloadError>)
    ensures
        file_size < HEADER_SIZE ==> (r matches Err(PayloadError::FileTooSmall(n, m)) && n
            == file_size && m == HEADER_SIZE),
        file_size >= HEADER_SIZE && prefix@.len() < 24 ==> (r matches Err(
            PayloadError::UnexpectedEof(w),
        ) && w@ == "header"@),
        file_size >= HEADER_SIZE && prefix@.len() >= 24 ==> {
            let p = prefix@;
            if p.subrange(0, 4) != magic() {
                r matches Err(PayloadError::InvalidMagic(t, v)) && t@ == lossy_text(p.subrange(0, 4))
                    && (valid_utf8(p.subrange(0, 4)) ==> t@ == decode_utf8(p.subrange(0, 4)))
                    && v as nat == be(p.subrange(0, 4))
            } else if version_of(p) != 2 {
                r matches Err(PayloadError::UnsupportedVersion(v)) && v as nat == version_of(p)
            } else if manifest_size_of(p) > MAX_MANIFEST_SIZE {
                r matches Err(PayloadError::ManifestTooLarge(m)) && m as nat == manifest_size_of(p)
            } else {
                r matches Ok(h) && h.version == 2 && h.manifest_size as nat == manifest_size_of(p)
                    && h.metadata_signature_size as nat == signature_size_of(p)
            }
        },
{
    if file_size < HEADER_SIZE {
        return Err(PayloadError::FileTooSmall(file_size, HEADER_SIZE));
    }
    if prefix.len() < 24 {
        return Err(PayloadError::UnexpectedEof(String::from_str("header")));
    }
    let p = prefix;
    match check_magic(p) {
        Err(e) => return Err(e),
        Ok(()) => {},
    }
    assert(p@.subrange(0, 4) =~= magic());
    let version = read_be(p, 4, 8);
    if version != 2 {
        return Err(PayloadError::UnsupportedVersion(version));
    }
    let manifest_size = read_be(p, 12, 8);
    if manifest_size > MAX_MANIFEST_SIZE {
        return Err(PayloadError::ManifestTooLarge(manifest_size));
    }
    let signature_size = read_be(p, 20, 4);
    proof {
        lemma_be_bound(p@.subrange(20, 24));
        reveal_with_fuel(pow256, 5);
    }
    Ok(PayloadHeader { version, manifest_size, metadata_signature_size: signature_size as u32 })
}

/// Where the data blob starts: after the header, the manifest and the
/// metadata signature.
pub fn data_blob_offset(h: &PayloadHeader) -> (r: u64)
    requires
        h.manifest_size <= MAX_MANIFEST_SIZE,
    ensures
        r == HEADER_SIZE + h.manifest_size + h.metadata_signature_size,
{
    HEADER_SIZE + h.manifest_size + h.metadata_signature_size as u64
}

} // verus!
