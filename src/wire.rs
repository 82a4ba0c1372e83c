//! The protobuf wire format, as far as the payload manifest needs it.

use vstd::prelude::*;
use vstd::slice::slice_subrange;

verus! {

/// The varint that starts at index `k` of `s`, read as base-128 little-endian
/// groups of seven bits: its value counted from group `k`, and the index just
/// past its last byte.  At most ten bytes are read, and a tenth byte above 1
/// would overflow 64 bits, so it is refused.
pub open spec fn varint_from(s: Seq<u8>, k: nat) -> Option<(nat, nat)>
    decreases 10 - k,
{
    if k >= 10 || k >= s.len() {
        None
    } else if s[k as int] < 128 {
        if k == 9 && s[k as int] > 1 {
            None
        } else {
            Some((s[k as int] as nat, k + 1))
        }
    } else {
        match varint_from(s, k + 1) {
            Some((v, e)) => Some(((s[k as int] - 128) as nat + 128 * v, e)),
            None => None,
        }
    }
}

/// The varint at the front of `s`: its value and its length in bytes.
pub open spec fn spec_varint(s: Seq<u8>) -> Option<(nat, nat)> {
    varint_from(s, 0)
}

pub open spec fn pow128(k: nat) -> nat
    decreases k,
{
    if k == 0 {
        1
    } else {
        128 * pow128((k - 1) as nat)
    }
}

/// The largest value, plus one, that a varint can hold counted from group `k`.
pub open spec fn varint_cap(k: nat) -> nat {
    2 * pow128((9 - k) as nat)
}

proof fn lemma_varint_from_bounds(s: Seq<u8>, k: nat)
    requires
        k <= 9,
    ensures
        varint_from(s, k) matches Some((v, e)) ==> k < e <= s.len() && e <= 10 && v < varint_cap(k),
    decreases 10 - k,
{
    if k < s.len() {
        let b = s[k as int];
        if b >= 128 {
            if k < 9 {
                lemma_varint_from_bounds(s, k + 1);
                assert(pow128((9 - k) as nat) == 128 * pow128((9 - (k + 1)) as nat));
            }
        } else {
            if k < 9 {
                lemma_pow128_monotone(1, (9 - k) as nat);
                reveal_with_fuel(pow128, 2);
                assert(pow128(1) == 128);
            }
        }
    }
}

/// Every varint fits in 64 bits and is at most ten bytes long.
pub proof fn lemma_varint_bounds(s: Seq<u8>)
    ensures
        spec_varint(s) matches Some((v, n)) ==> 0 < n <= s.len() && n <= 10 && v
            <= 0xffff_ffff_ffff_ffff,
{
    lemma_varint_from_bounds(s, 0);
    reveal_with_fuel(pow128, 10);
    assert(pow128(9) == 0x8000_0000_0000_0000);
}

proof fn lemma_pow128_positive(k: nat)
    ensures
        pow128(k) > 0,
    decreases k,
{
    if k > 0 {
        lemma_pow128_positive((k - 1) as nat);
    }
}

proof fn lemma_pow128_monotone(a: nat, b: nat)
    requires
        a <= b,
    ensures
        pow128(a) <= pow128(b),
    decreases b - a,
{
    if a < b {
        lemma_pow128_monotone(a, (b - 1) as nat);
        lemma_pow128_positive((b - 1) as nat);
    }
}

/// What a field of a message holds on the wire.
pub ghost enum SpecValue {
    Varint(u64),
    Fixed,
    Bytes(Seq<u8>),
}

/// One field at the front of a message: its number, its value, and the
/// number of bytes that key and value take.
pub ghost struct WireField {
    pub tag: nat,
    pub value: SpecValue,
    pub len: nat,
}

/// The key at the front of `s`: field number, wire type and length.  The key
/// is a varint that fits in 32 bits, whose low three bits, the wire type, are
/// at most 5, and whose rest, the field number, is not zero.
pub open spec fn spec_key(s: Seq<u8>) -> Option<(nat, nat, nat)> {
    match spec_varint(s) {
        None => None,
        Some((key, n)) => if key > 0xffff_ffff || key / 8 == 0 || key % 8 > 5 {
            None
        } else {
            Some((key / 8, key % 8, n))
        },
    }
}

/// The length of a value of wire type `wire` at the front of `s`, skipped
/// with `depth` levels of nesting left: varints, eight-byte, length-delimited
/// and four-byte values, and groups (3) up to their matching end (4).  With no
/// level left, nothing is skipped.
pub open spec fn skip_len(s: Seq<u8>, tag: nat, wire: nat, depth: nat) -> Option<nat>
    decreases s.len(), 1nat,
{
    if depth == 0 {
        None
    } else if wire == 0 {
        match spec_varint(s) {
            Some((_, m)) => Some(m),
            None => None,
        }
    } else if wire == 1 {
        if 8 <= s.len() {
            Some(8)
        } else {
            None
        }
    } else if wire == 2 {
        match spec_varint(s) {
            Some((l, m)) => if m + l <= s.len() {
                Some(m + l)
            } else {
                None
            },
            None => None,
        }
    } else if wire == 5 {
        if 4 <= s.len() {
            Some(4)
        } else {
            None
        }
    } else if wire == 3 {
        group_len(s, tag, depth)
    } else {
        None
    }
}

/// The length of the rest of group `tag` at the front of `s`, through its end
/// key; the fields inside are skipped one level deeper.
pub open spec fn group_len(s: Seq<u8>, tag: nat, depth: nat) -> Option<nat>
    decreases s.len(), 0nat,
{
    match spec_key(s) {
        None => None,
        Some((t, w, n)) => if !(0 < n <= s.len()) {
            None
        } else if w == 4 {
            if t == tag {
                Some(n)
            } else {
                None
            }
        } else {
            match skip_len(s.skip(n as int), t, w, (depth - 1) as nat) {
                None => None,
                Some(m) => if n + m <= s.len() {
                    match group_len(s.skip((n + m) as int), tag, depth) {
                        Some(k) => Some(n + m + k),
                        None => None,
                    }
                } else {
                    None
                },
            }
        },
    }
}

/// The nesting allowed below a field that is skipped: prost's decoding
/// context starts with 100 levels.
pub const SKIP_DEPTH: u64 = 100;

/// The field at the front of `s`.  Varints are read and length-delimited
/// values are taken as bytes; eight-byte and four-byte values and groups are
/// skipped as `skip_len` describes, from a fresh decoding context.  An
/// end-group key where no group is open is refused.
pub open spec fn spec_field(s: Seq<u8>) -> Option<WireField> {
    match spec_key(s) {
        None => None,
        Some((tag, wire, n)) => {
            if wire == 0 {
                match spec_varint(s.skip(n as int)) {
                    Some((v, m)) => Some(WireField { tag, value: SpecValue::Varint(v as u64), len: n + m }),
                    None => None,
                }
            } else if wire == 2 {
                match spec_varint(s.skip(n as int)) {
                    Some((l, m)) => if n + m + l <= s.len() {
                        Some(
                            WireField {
                                tag,
                                value: SpecValue::Bytes(s.subrange((n + m) as int, (n + m + l) as int)),
                                len: n + m + l,
                            },
                        )
                    } else {
                        None
                    },
                    None => None,
                }
            } else if wire == 1 || wire == 3 || wire == 5 {
                match skip_len(s.skip(n as int), tag, wire, SKIP_DEPTH as nat) {
                    Some(k) => if n + k <= s.len() {
                        Some(WireField { tag, value: SpecValue::Fixed, len: n + k })
                    } else {
                        None
                    },
                    None => None,
                }
            } else {
                None
            }
        },
    }
}

/// Relies on prost::encoding::decode_varint: it reads one varint from the front
/// of the buffer and advances the buffer past it, or fails.  The result is the
/// value and the number of bytes left.
#[verifier::external_body]
fn decode_varint(data: &[u8]) -> (r: Option<(u64, usize)>)
    ensures
        match spec_varint(data@) {
            None => r is None,
            Some((v, n)) => r == Some((v as u64, (data@.len() - n) as usize)),
        },
{
    let mut buf = data;
    match prost::encoding::decode_varint(&mut buf) {
        Ok(v) => Some((v, buf.len())),
        Err(_) => None,
    }
}

/// Reads the varint at `data[pos..end]`: its value and the index past it.
pub fn read_varint(data: &[u8], pos: usize, end: usize) -> (r: Option<(u64, usize)>)
    requires
        pos <= end <= data@.len(),
    ensures
        match spec_varint(data@.subrange(pos as int, end as int)) {
            None => r is None,
            Some((v, n)) => r == Some((v as u64, (pos + n) as usize)),
        },
{
    let window = slice_subrange(data, pos, end);
    proof {
        lemma_varint_bounds(window@);
    }
    match decode_varint(window) {
        None => None,
        Some((v, rest)) => Some((v, end - rest)),
    }
}

/// A field's value as read: a varint, a fixed-width value that is skipped, or
/// the bounds of a length-delimited value in the buffer.
#[derive(Clone, Copy, Debug, PartialEq, Eq)]
pub enum FieldValue {
    Varint(u64),
    Fixed,
    Bytes(usize, usize),
}

/// A field read from a buffer: its number, its value, and the index past it.
#[derive(Clone, Copy, Debug, PartialEq, Eq)]
pub struct Field {
    pub tag: u64,
    pub value: FieldValue,
    pub next: usize,
}

/// `f`, read at `pos` in `data`, is the field `w`.
pub open spec fn field_is(data: Seq<u8>, pos: int, f: Field, w: WireField) -> bool {
    &&& f.tag == w.tag
    &&& f.next == pos + w.len
    &&& match w.value {
        SpecValue::Varint(v) => f.value == FieldValue::Varint(v),
        SpecValue::Fixed => f.value == FieldValue::Fixed,
        SpecValue::Bytes(b) => f.value matches FieldValue::Bytes(a, z) && a <= z == f.next
            && data.subrange(a as int, z as int) == b,
    }
}

/// Relies on prost::encoding::decode_key: it reads a key varint, refuses one
/// above 32 bits, a wire type above 5 and a field number of zero, and gives
/// field number and wire type.  The result also holds the bytes left.
#[verifier::external_body]
fn decode_key(data: &[u8]) -> (r: Option<(u64, u64, usize)>)
    ensures
        match spec_key(data@) {
            None => r is None,
            Some((t, w, n)) => r == Some((t as u64, w as u64, (data@.len() - n) as usize)),
        },
{
    let mut buf = data;
    match prost::encoding::decode_key(&mut buf) {
        Ok((tag, wire)) => Some((tag as u64, wire as u64, buf.len())),
        Err(_) => None,
    }
}

/// Relies on prost::encoding::skip_field with a default decoding context: it
/// skips one value of the given wire type, groups through their matching end
/// key, and fails where the value is cut short, malformed or nested too deep.
/// The result is the bytes left.
#[verifier::external_body]
fn skip_field(data: &[u8], tag: u64, wire: u64) -> (r: Option<usize>)
    requires
        tag <= 0xffff_ffff,
    ensures
        match skip_len(data@, tag as nat, wire as nat, SKIP_DEPTH as nat) {
            None => r is None,
            Some(m) => r == Some((data@.len() - m) as usize),
        },
{
    let mut buf = data;
    let wire_type = match prost::encoding::WireType::try_from(wire) {
        Ok(w) => w,
        Err(_) => return None,
    };
    let ctx = prost::encoding::DecodeContext::default();
    match prost::encoding::skip_field(wire_type, tag as u32, &mut buf, ctx) {
        Ok(()) => Some(buf.len()),
        Err(_) => None,
    }
}

proof fn lemma_group_len_bound(s: Seq<u8>, tag: nat, depth: nat)
    ensures
        group_len(s, tag, depth) matches Some(k) ==> 0 < k <= s.len(),
    decreases s.len(),
{
    if let Some((t, w, n)) = spec_key(s) {
        if 0 < n <= s.len() && w != 4 {
            if let Some(m) = skip_len(s.skip(n as int), t, w, (depth - 1) as nat) {
                if n + m <= s.len() {
                    lemma_group_len_bound(s.skip((n + m) as int), tag, depth);
                }
            }
        }
    }
}

proof fn lemma_skip_len_bound(s: Seq<u8>, tag: nat, wire: nat, depth: nat)
    ensures
        skip_len(s, tag, wire, depth) matches Some(m) ==> m <= s.len(),
{
    lemma_varint_bounds(s);
    lemma_group_len_bound(s, tag, depth);
}

/// Reads the field at the front of `data[pos..end]`.
pub fn read_field(data: &[u8], pos: usize, end: usize) -> (r: Option<Field>)
    requires
        pos <= end <= data@.len(),
    ensures
        match spec_field(data@.subrange(pos as int, end as int)) {
            None => r is None,
            Some(w) => r matches Some(f) && field_is(data@, pos as int, f, w) && pos < f.next <= end,
        },
{
    let ghost s = data@.subrange(pos as int, end as int);
    proof {
        lemma_varint_bounds(s);
    }
    let (tag, wire, rest) = match decode_key(slice_subrange(data, pos, end)) {
        None => return None,
        Some(k) => k,
    };
    let p = end - rest;
    assert(data@.subrange(p as int, end as int) =~= s.skip(p - pos));
    proof {
        lemma_varint_bounds(s.skip(p - pos));
        lemma_skip_len_bound(s.skip(p - pos), tag as nat, wire as nat, SKIP_DEPTH as nat);
    }
    if wire == 0 {
        match read_varint(data, p, end) {
            None => None,
            Some((v, q)) => Some(Field { tag, value: FieldValue::Varint(v), next: q }),
        }
    } else if wire == 2 {
        match read_varint(data, p, end) {
            None => None,
            Some((l, q)) => {
                if l <= (end - q) as u64 {
                    let z = q + l as usize;
                    assert(data@.subrange(q as int, z as int) =~= s.subrange(q - pos, z - pos));
                    Some(Field { tag, value: FieldValue::Bytes(q, z), next: z })
                } else {
                    None
                }
            },
        }
    } else if wire == 1 || wire == 3 || wire == 5 {
        match skip_field(slice_subrange(data, p, end), tag, wire) {
            None => None,
            Some(left) => Some(Field { tag, value: FieldValue::Fixed, next: end - left }),
        }
    } else {
        None
    }
}

} // verus!
