//! The payload manifest: the fields this reader consumes, and their decoding
//! from the protobuf wire format.  Fields that are not consumed are skipped the
//! way prost skips unknown fields.

use vstd::prelude::*;
use vstd::string::StringExecFns;
use vstd::utf8::{valid_utf8, decode_utf8};
use crate::error::PayloadError;
use crate::wire::{spec_field, read_field, FieldValue, SpecValue, WireField};

verus! {

/// Operation type codes of the manifest schema.
pub const REPLACE: u32 = 0;
pub const REPLACE_BZ: u32 = 1;
pub const REPLACE_XZ: u32 = 8;

/// One install operation: its type code and where its data lies in the data blob.
#[derive(Clone, Copy, Debug, PartialEq, Eq)]
pub struct InstallOperation {
    pub op_type: u32,
    pub data_offset: Option<u64>,
    pub data_length: Option<u64>,
}

/// One partition of the payload.
#[derive(Clone, Debug)]
pub struct PartitionUpdate {
    pub partition_name: String,
    /// The size of the finished image, if the manifest gives it.
    pub new_partition_size: Option<u64>,
    pub operations: Vec<InstallOperation>,
}

/// The decoded manifest.
#[derive(Clone, Debug)]
pub struct DeltaArchiveManifest {
    pub block_size: Option<u32>,
    pub partial_update: Option<bool>,
    pub security_patch_level: Option<String>,
    pub partitions: Vec<PartitionUpdate>,
}

pub ghost struct PartitionView {
    pub name: Seq<char>,
    pub size: Option<u64>,
    pub operations: Seq<InstallOperation>,
}

pub ghost struct ManifestView {
    pub block_size: Option<u32>,
    pub partial_update: Option<bool>,
    pub security_patch_level: Option<Seq<char>>,
    pub partitions: Seq<PartitionView>,
}

impl View for PartitionUpdate {
    type V = PartitionView;

    open spec fn view(&self) -> PartitionView {
        PartitionView {
            name: self.partition_name@,
            size: self.new_partition_size,
            operations: self.operations@,
        }
    }
}

pub open spec fn opt_str_view(s: Option<String>) -> Option<Seq<char>> {
    match s {
        Some(t) => Some(t@),
        None => None,
    }
}

impl View for DeltaArchiveManifest {
    type V = ManifestView;

    open spec fn view(&self) -> ManifestView {
        ManifestView {
            block_size: self.block_size,
            partial_update: self.partial_update,
            security_patch_level: opt_str_view(self.security_patch_level),
            partitions: self.partitions@.map_values(|p: PartitionUpdate| p@),
        }
    }
}

pub open spec fn low32(v: u64) -> u32 {
    (v % 0x1_0000_0000) as u32
}

pub open spec fn empty_operation() -> InstallOperation {
    InstallOperation { op_type: REPLACE, data_offset: None, data_length: None }
}

pub open spec fn empty_partition() -> PartitionView {
    PartitionView { name: Seq::empty(), size: None, operations: Seq::empty() }
}

pub open spec fn empty_manifest() -> ManifestView {
    ManifestView {
        block_size: None,
        partial_update: None,
        security_patch_level: None,
        partitions: Seq::empty(),
    }
}

/// An operation after one more of its fields: type (1), data offset (2) and
/// data length (3) are varints; a later value replaces an earlier one.
pub open spec fn apply_operation_field(op: InstallOperation, f: WireField) -> Option<InstallOperation> {
    if f.tag == 1 || f.tag == 2 || f.tag == 3 {
        match f.value {
            SpecValue::Varint(v) => if f.tag == 1 {
                Some(InstallOperation { op_type: low32(v), ..op })
            } else if f.tag == 2 {
                Some(InstallOperation { data_offset: Some(v), ..op })
            } else {
                Some(InstallOperation { data_length: Some(v), ..op })
            },
            _ => None,
        }
    } else {
        Some(op)
    }
}

/// The operation that the fields in `s` make of `op`.
pub open spec fn operation_fields(s: Seq<u8>, op: InstallOperation) -> Option<InstallOperation>
    decreases s.len(),
{
    if s.len() == 0 {
        Some(op)
    } else {
        match spec_field(s) {
            Some(f) => if 0 < f.len <= s.len() {
                match apply_operation_field(op, f) {
                    Some(next) => operation_fields(s.skip(f.len as int), next),
                    None => None,
                }
            } else {
                None
            },
            None => None,
        }
    }
}

/// The partition size that the fields of a partition-info message in `s` leave:
/// field 1, a varint, is the size.
pub open spec fn info_fields(s: Seq<u8>, size: Option<u64>) -> Option<Option<u64>>
    decreases s.len(),
{
    if s.len() == 0 {
        Some(size)
    } else {
        match spec_field(s) {
            Some(f) => if 0 < f.len <= s.len() {
                if f.tag == 1 {
                    match f.value {
                        SpecValue::Varint(v) => info_fields(s.skip(f.len as int), Some(v)),
                        _ => None,
                    }
                } else {
                    info_fields(s.skip(f.len as int), size)
                }
            } else {
                None
            },
            None => None,
        }
    }
}

/// A partition after one more of its fields: its name (1) is UTF-8 text, its
/// new-partition info (7) a message that carries the size, and each operation
/// (8) a message appended to the list.
pub open spec fn apply_partition_field(p: PartitionView, f: WireField) -> Option<PartitionView> {
    if f.tag == 1 || f.tag == 7 || f.tag == 8 {
        match f.value {
            SpecValue::Bytes(b) => if f.tag == 1 {
                if valid_utf8(b) {
                    Some(PartitionView { name: decode_utf8(b), ..p })
                } else {
                    None
                }
            } else if f.tag == 7 {
                match info_fields(b, p.size) {
                    Some(size) => Some(PartitionView { size, ..p }),
                    None => None,
                }
            } else {
                match operation_fields(b, empty_operation()) {
                    Some(op) => Some(PartitionView { operations: p.operations.push(op), ..p }),
                    None => None,
                }
            },
            _ => None,
        }
    } else {
        Some(p)
    }
}

pub open spec fn partition_fields(s: Seq<u8>, p: PartitionView) -> Option<PartitionView>
    decreases s.len(),
{
    if s.len() == 0 {
        Some(p)
    } else {
        match spec_field(s) {
            Some(f) => if 0 < f.len <= s.len() {
                match apply_partition_field(p, f) {
                    Some(next) => partition_fields(s.skip(f.len as int), next),
                    None => None,
                }
            } else {
                None
            },
            None => None,
        }
    }
}

/// The manifest after one more of its fields: block size (3) is a varint cut
/// to 32 bits, each partition (13) a message appended to the list, partial
/// update (16) a varint that is true unless zero, and the security patch
/// level (18) UTF-8 text.
pub open spec fn apply_manifest_field(m: ManifestView, f: WireField) -> Option<ManifestView> {
    if f.tag == 3 || f.tag == 16 {
        match f.value {
            SpecValue::Varint(v) => if f.tag == 3 {
                Some(ManifestView { block_size: Some(low32(v)), ..m })
            } else {
                Some(ManifestView { partial_update: Some(v != 0), ..m })
            },
            _ => None,
        }
    } else if f.tag == 13 || f.tag == 18 {
        match f.value {
            SpecValue::Bytes(b) => if f.tag == 13 {
                match partition_fields(b, empty_partition()) {
                    Some(p) => Some(ManifestView { partitions: m.partitions.push(p), ..m }),
                    None => None,
                }
            } else if valid_utf8(b) {
                Some(ManifestView { security_patch_level: Some(decode_utf8(b)), ..m })
            } else {
                None
            },
            _ => None,
        }
    } else {
        Some(m)
    }
}

pub open spec fn manifest_fields(s: Seq<u8>, m: ManifestView) -> Option<ManifestView>
    decreases s.len(),
{
    if s.len() == 0 {
        Some(m)
    } else {
        match spec_field(s) {
            Some(f) => if 0 < f.len <= s.len() {
                match apply_manifest_field(m, f) {
                    Some(next) => manifest_fields(s.skip(f.len as int), next),
                    None => None,
                }
            } else {
                None
            },
            None => None,
        }
    }
}

/// The manifest that the bytes `s` encode, if they are a well-formed encoding.
pub open spec fn spec_manifest(s: Seq<u8>) -> Option<ManifestView> {
    manifest_fields(s, empty_manifest())
}

/// Relies on std::str::from_utf8: the bytes are text exactly when they are
/// valid UTF-8, and the text is what they encode.
#[verifier::external_body]
fn utf8_text(b: &[u8]) -> (r: Option<String>)
    ensures
        r is Some <==> valid_utf8(b@),
        r matches Some(t) ==> t@ == decode_utf8(b@),
{
    match std::str::from_utf8(b) {
        Ok(t) => Some(t.to_string()),
        Err(_) => None,
    }
}

/// Decodes the install operation in `data[start..end]`.
fn decode_operation(data: &[u8], start: usize, end: usize) -> (r: Option<InstallOperation>)
    requires
        start <= end <= data@.len(),
    ensures
        r == operation_fields(data@.subrange(start as int, end as int), empty_operation()),
{
    let mut op = InstallOperation { op_type: REPLACE, data_offset: None, data_length: None };
    let mut pos = start;
    while pos < end
        invariant
            start <= pos <= end <= data@.len(),
            operation_fields(data@.subrange(start as int, end as int), empty_operation())
                == operation_fields(data@.subrange(pos as int, end as int), op),
        decreases end - pos,
    {
        let f = match read_field(data, pos, end) {
            None => return None,
            Some(f) => f,
        };
        let ghost s = data@.subrange(pos as int, end as int);
        assert(s.skip(f.next - pos) =~= data@.subrange(f.next as int, end as int));
        if f.tag == 1 || f.tag == 2 || f.tag == 3 {
            match f.value {
                FieldValue::Varint(v) => {
                    if f.tag == 1 {
                        op.op_type = (v % 0x1_0000_0000) as u32;
                    } else if f.tag == 2 {
                        op.data_offset = Some(v);
                    } else {
                        op.data_length = Some(v);
                    }
                },
                _ => return None,
            }
        }
        pos = f.next;
    }
    Some(op)
}

/// Decodes the partition-info message in `data[start..end]`, starting from
/// the size `size`.
fn decode_info(data: &[u8], start: usize, end: usize, size: Option<u64>) -> (r: Option<Option<u64>>)
    requires
        start <= end <= data@.len(),
    ensures
        r == info_fields(data@.subrange(start as int, end as int), size),
{
    let mut cur = size;
    let mut pos = start;
    while pos < end
        invariant
            start <= pos <= end <= data@.len(),
            info_fields(data@.subrange(start as int, end as int), size) == info_fields(
                data@.subrange(pos as int, end as int),
                cur,
            ),
        decreases end - pos,
    {
        let f = match read_field(data, pos, end) {
            None => return None,
            Some(f) => f,
        };
        let ghost s = data@.subrange(pos as int, end as int);
        assert(s.skip(f.next - pos) =~= data@.subrange(f.next as int, end as int));
        if f.tag == 1 {
            match f.value {
                FieldValue::Varint(v) => {
                    cur = Some(v);
                },
                _ => return None,
            }
        }
        pos = f.next;
    }
    Some(cur)
}

/// Decodes the partition in `data[start..end]`.
fn decode_partition(data: &[u8], start: usize, end: usize) -> (r: Option<PartitionUpdate>)
    requires
        start <= end <= data@.len(),
    ensures
        match partition_fields(data@.subrange(start as int, end as int), empty_partition()) {
            Some(v) => r matches Some(p) && p@ == v,
            None => r is None,
        },
{
    let mut p = PartitionUpdate {
        partition_name: String::new(),
        new_partition_size: None,
        operations: Vec::new(),
    };
    assert(p@ == empty_partition()) by {
        assert(p.operations@ =~= Seq::<InstallOperation>::empty());
    }
    let mut pos = start;
    while pos < end
        invariant
            start <= pos <= end <= data@.len(),
            partition_fields(data@.subrange(start as int, end as int), empty_partition())
                == partition_fields(data@.subrange(pos as int, end as int), p@),
        decreases end - pos,
    {
        let f = match read_field(data, pos, end) {
            None => return None,
            Some(f) => f,
        };
        let ghost s = data@.subrange(pos as int, end as int);
        assert(s.skip(f.next - pos) =~= data@.subrange(f.next as int, end as int));
        if f.tag == 1 || f.tag == 7 || f.tag == 8 {
            match f.value {
                FieldValue::Bytes(a, z) => {
                    if f.tag == 1 {
                        match utf8_text(vstd::slice::slice_subrange(data, a, z)) {
                            Some(t) => {
                                p.partition_name = t;
                            },
                            None => return None,
                        }
                    } else if f.tag == 7 {
                        match decode_info(data, a, z, p.new_partition_size) {
                            Some(size) => {
                                p.new_partition_size = size;
                            },
                            None => return None,
                        }
                    } else {
                        match decode_operation(data, a, z) {
                            Some(op) => {
                                p.operations.push(op);
                            },
                            None => return None,
                        }
                    }
                },
                _ => return None,
            }
        }
        pos = f.next;
    }
    Some(p)
}

/// Decodes the manifest in `data[start..end]`.
fn decode_manifest_range(data: &[u8], start: usize, end: usize) -> (r: Option<DeltaArchiveManifest>)
    requires
        start <= end <= data@.len(),
    ensures
        match manifest_fields(data@.subrange(start as int, end as int), empty_manifest()) {
            Some(v) => r matches Some(m) && m@ == v,
            None => r is None,
        },
{
    let mut m = DeltaArchiveManifest {
        block_size: None,
        partial_update: None,
        security_patch_level: None,
        partitions: Vec::new(),
    };
    assert(m@ == empty_manifest()) by {
        assert(m@.partitions =~= Seq::<PartitionView>::empty());
    }
    let mut pos = start;
    while pos < end
        invariant
            start <= pos <= end <= data@.len(),
            manifest_fields(data@.subrange(start as int, end as int), empty_manifest())
                == manifest_fields(data@.subrange(pos as int, end as int), m@),
        decreases end - pos,
    {
        let f = match read_field(data, pos, end) {
            None => return None,
            Some(f) => f,
        };
        let ghost s = data@.subrange(pos as int, end as int);
        assert(s.skip(f.next - pos) =~= data@.subrange(f.next as int, end as int));
        if f.tag == 3 || f.tag == 16 {
            match f.value {
                FieldValue::Varint(v) => {
                    if f.tag == 3 {
                        m.block_size = Some((v % 0x1_0000_0000) as u32);
                    } else {
                        m.partial_update = Some(v != 0);
                    }
                },
                _ => return None,
            }
        } else if f.tag == 13 || f.tag == 18 {
            match f.value {
                FieldValue::Bytes(a, z) => {
                    if f.tag == 13 {
                        match decode_partition(data, a, z) {
                            Some(p) => {
                                let ghost before = m@.partitions;
                                m.partitions.push(p);
                                assert(m@.partitions =~= before.push(p@));
                            },
                            None => return None,
                        }
                    } else {
                        match utf8_text(vstd::slice::slice_subrange(data, a, z)) {
                            Some(t) => {
                                m.security_patch_level = Some(t);
                            },
                            None => return None,
                        }
                    }
                },
                _ => return None,
            }
        }
        pos = f.next;
    }
    Some(m)
}

/// Decodes a manifest from its bytes.  It succeeds exactly when the bytes are a
/// well-formed encoding, and then gives the manifest they encode.
pub fn decode_manifest(bytes: &[u8]) -> (r: Result<DeltaArchiveManifest, PayloadError>)
    ensures
        match spec_manifest(bytes@) {
            Some(v) => r matches Ok(m) && m@ == v,
            None => r matches Err(PayloadError::ProtobufDecode(_)),
        },
{
    assert(bytes@.subrange(0, bytes@.len() as int) =~= bytes@);
    match decode_manifest_range(bytes, 0, bytes.len()) {
        Some(m) => Ok(m),
        None => Err(PayloadError::ProtobufDecode(String::from_str("the manifest is not a well-formed encoding"))),
    }
}

} // verus!
