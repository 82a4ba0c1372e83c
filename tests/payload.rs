use std::io::Read;
use payloadpack::codec::decode_segment;
use payloadpack::error::{Codec, IoErrorKind, PayloadError, PayloadPackError};
use payloadpack::error::{extraction_error_to_json, inspection_error_to_json};
use payloadpack::extract::{image_path_of, is_safe_partition_name, plan_extraction, progress_percent};
use payloadpack::extract::{ExtractedPartition, ExtractionResult, ProgressEvent};
use payloadpack::header::{check_magic, data_blob_offset, parse_header, read_be, PayloadHeader};
use payloadpack::inspect::{inspect_manifest, validate_path};
use payloadpack::manifest::{decode_manifest, REPLACE, REPLACE_BZ, REPLACE_XZ};
use payloadpack::message::{hello, process_message};
use payloadpack::properties::parse_properties;
use payloadpack::text::{decimal_string, format_size};

fn varint(mut v: u64, out: &mut Vec<u8>) {
    while v >= 0x80 {
        out.push((v as u8) | 0x80);
        v >>= 7;
    }
    out.push(v as u8);
}

fn field_varint(tag: u64, v: u64, out: &mut Vec<u8>) {
    varint(tag << 3, out);
    varint(v, out);
}

fn field_bytes(tag: u64, b: &[u8], out: &mut Vec<u8>) {
    varint((tag << 3) | 2, out);
    varint(b.len() as u64, out);
    out.extend_from_slice(b);
}

fn operation(op_type: u64, offset: u64, length: u64) -> Vec<u8> {
    let mut o = Vec::new();
    field_varint(1, op_type, &mut o);
    field_varint(2, offset, &mut o);
    field_varint(3, length, &mut o);
    o
}

fn partition(name: &str, size: Option<u64>, ops: &[Vec<u8>]) -> Vec<u8> {
    let mut p = Vec::new();
    field_bytes(1, name.as_bytes(), &mut p);
    if let Some(s) = size {
        let mut info = Vec::new();
        field_varint(1, s, &mut info);
        field_bytes(7, &info, &mut p);
    }
    for op in ops {
        field_bytes(8, op, &mut p);
    }
    p
}

fn manifest(parts: &[Vec<u8>]) -> Vec<u8> {
    let mut m = Vec::new();
    for p in parts {
        field_bytes(13, p, &mut m);
    }
    m
}

fn header_bytes(version: u64, manifest_size: u64, sig: u32) -> Vec<u8> {
    let mut h = b"CrAU".to_vec();
    h.extend_from_slice(&version.to_be_bytes());
    h.extend_from_slice(&manifest_size.to_be_bytes());
    h.extend_from_slice(&sig.to_be_bytes());
    h
}

/// The size formatting of the f64 arithmetic it stands for.
fn float_format(bytes: u64) -> String {
    const KB: u64 = 1024;
    const MB: u64 = KB * 1024;
    const GB: u64 = MB * 1024;
    if bytes >= GB {
        format!("{:.2} GB", bytes as f64 / GB as f64)
    } else if bytes >= MB {
        format!("{:.2} MB", bytes as f64 / MB as f64)
    } else if bytes >= KB {
        format!("{:.2} KB", bytes as f64 / KB as f64)
    } else {
        format!("{} B", bytes)
    }
}

#[test]
fn test_format_size() {
    assert_eq!(format_size(0), "0 B");
    assert_eq!(format_size(512), "512 B");
    assert_eq!(format_size(1024), "1.00 KB");
    assert_eq!(format_size(1536), "1.50 KB");
    assert_eq!(format_size(1048576), "1.00 MB");
    assert_eq!(format_size(1073741824), "1.00 GB");
}

#[test]
fn format_size_matches_float_formatting() {
    let mut values: Vec<u64> = vec![1, 9, 10, 1023, 1025, 1152, 1162, 1163, 2047, 2048, 10239, 10240];
    values.extend_from_slice(&[1048575, 1048576 + 5242, 1048576 + 5243, 1073741823, 1073741825]);
    values.extend_from_slice(&[u64::MAX, u64::MAX - 1, (1u64 << 53) + 1, (1u64 << 53) + 3, 1u64 << 63]);
    values.extend_from_slice(&[(1u64 << 54) + 2, (1u64 << 54) + 6, 5_000_000_000_000, 123_456_789_012_345_678]);
    let mut x: u64 = 0x9e37_79b9_7f4a_7c15;
    for _ in 0..2000 {
        x ^= x << 13;
        x ^= x >> 7;
        x ^= x << 17;
        values.push(x >> (x % 64));
    }
    for v in values {
        assert_eq!(format_size(v), float_format(v), "size {}", v);
    }
}

#[test]
fn format_size_ties_go_to_even() {
    assert_eq!(format_size(1152), "1.12 KB");
    assert_eq!(format_size(1024 + 384), "1.38 KB");
    assert_eq!(format_size(u64::MAX), "17179869184.00 GB");
}

#[test]
fn decimal_digits() {
    assert_eq!(decimal_string(0), "0");
    assert_eq!(decimal_string(907), "907");
    assert_eq!(decimal_string(u64::MAX), "18446744073709551615");
}

#[test]
fn test_error_display() {
    let error = PayloadPackError::InvalidInput("test".to_string());
    assert_eq!(error.to_string(), "Invalid input: test");
}

#[test]
fn test_empty_path_error() {
    let result = validate_path("");
    assert!(result.is_err());
    if let Err(PayloadError::EmptyPath) = result {
        // Expected
    } else {
        panic!("Expected EmptyPath error");
    }
    assert!(validate_path("/data/payload.bin").is_ok());
}

#[test]
fn test_nonexistent_file_error() {
    let result: Result<(), PayloadError> = Err(PayloadError::from_io(
        IoErrorKind::NotFound,
        "/nonexistent/path/to/file.bin".to_string(),
        "header",
    ));
    assert!(result.is_err());
    if let Err(PayloadError::FileNotFound(_)) = result {
        // Expected
    } else {
        panic!("Expected FileNotFound error");
    }
}

#[test]
fn io_errors_keep_their_kind() {
    match PayloadError::from_io(IoErrorKind::PermissionDenied, "denied".to_string(), "x") {
        PayloadError::PermissionDenied(s) => assert_eq!(s, "denied"),
        e => panic!("unexpected {:?}", e),
    }
    match PayloadError::from_io(IoErrorKind::UnexpectedEof, "eof".to_string(), "manifest") {
        PayloadError::UnexpectedEof(s) => assert_eq!(s, "manifest"),
        e => panic!("unexpected {:?}", e),
    }
    match PayloadError::from_io(IoErrorKind::Other, "boom".to_string(), "x") {
        PayloadError::Io(s) => assert_eq!(s, "boom"),
        e => panic!("unexpected {:?}", e),
    }
}

#[test]
fn test_big_endian_version() {
    let version_bytes: [u8; 8] = [0x00, 0x00, 0x00, 0x00, 0x00, 0x00, 0x00, 0x02];
    let version = read_be(&version_bytes, 0, 8);
    assert_eq!(version, 2);
    assert_eq!(read_be(&[0x12, 0x34, 0x56, 0x78], 0, 4), 0x1234_5678);
}

#[test]
fn minimal_payload_inspects_and_extracts() {
    let mut m = manifest(&[partition("boot", Some(0), &[])]);
    field_varint(12, 0, &mut m);
    field_varint(14, 0, &mut m);
    assert_eq!(m.len(), 16);
    let mut file = header_bytes(2, 16, 0);
    assert_eq!(
        file,
        vec![0x43, 0x72, 0x41, 0x55, 0, 0, 0, 0, 0, 0, 0, 2, 0, 0, 0, 0, 0, 0, 0, 0x10, 0, 0, 0, 0]
    );
    file.extend_from_slice(&m);
    let header = parse_header(file.len() as u64, &file[..24]).unwrap();
    assert_eq!(header, PayloadHeader { version: 2, manifest_size: 16, metadata_signature_size: 0 });
    let decoded = decode_manifest(&file[24..40]).unwrap();
    let inspection = inspect_manifest(header, &decoded, "/tmp/payload.bin", None).unwrap();
    assert_eq!(inspection.partitions.len(), 1);
    let p = &inspection.partitions[0];
    assert_eq!(p.name, "boot");
    assert_eq!(p.size, 0);
    assert_eq!(p.operations_count, 0);
    assert_eq!(p.size_human, "0 B");
    assert_eq!(inspection.total_size, 0);
    assert_eq!(inspection.total_size_human, "0 B");
    assert_eq!(inspection.block_size, 4096);
    assert!(!inspection.partial_update);
    assert_eq!(inspection.file_path, "/tmp/payload.bin");

    let plan = plan_extraction(&decoded, data_blob_offset(&header), file.len() as u64, "/tmp/out").unwrap();
    assert!(plan.stop.is_none());
    assert_eq!(plan.partitions.len(), 1);
    assert_eq!(plan.partitions[0].output_path, "/tmp/out/boot.img");
    assert!(plan.partitions[0].reads.is_empty());
}

#[test]
fn wrong_magic_is_reported() {
    let mut file = header_bytes(2, 0, 0);
    file[3] = b'V';
    match parse_header(24, &file) {
        Err(PayloadError::InvalidMagic(s, v)) => {
            assert_eq!(s, "CrAV");
            assert_eq!(v, 0x4372_4156);
            let msg = PayloadError::InvalidMagic(s, v).to_string();
            assert_eq!(msg, "Invalid magic bytes: expected 'CrAU' (0x43724155), got 'CrAV' (0x43724156)");
        }
        other => panic!("unexpected {:?}", other),
    }
}

#[test]
fn magic_of_invalid_text_is_shown_lossily() {
    let mut file = header_bytes(2, 0, 0);
    file[0] = 0xff;
    match parse_header(100, &file) {
        Err(PayloadError::InvalidMagic(s, v)) => {
            assert_eq!(s, "\u{fffd}rAU");
            assert_eq!(v, 0xff72_4155);
        }
        other => panic!("unexpected {:?}", other),
    }
}

#[test]
fn unsupported_version_is_reported() {
    let file = header_bytes(3, 0, 0);
    match parse_header(24, &file) {
        Err(e @ PayloadError::UnsupportedVersion(3)) => {
            assert_eq!(e.to_string(), "Unsupported payload version: 3. Only Version 2 is supported.");
        }
        other => panic!("unexpected {:?}", other),
    }
    let file = header_bytes(0x0200_0000_0000_0000, 0, 0);
    assert!(matches!(parse_header(24, &file), Err(PayloadError::UnsupportedVersion(0x0200_0000_0000_0000))));
}

#[test]
fn manifest_bound_is_enforced() {
    let file = header_bytes(2, 100 * 1024 * 1024 + 1, 0);
    match parse_header(1 << 40, &file) {
        Err(e @ PayloadError::ManifestTooLarge(104857601)) => {
            assert_eq!(e.to_string(), "Manifest too large: 104857601 bytes (max 100MB). File may be corrupted.");
        }
        other => panic!("unexpected {:?}", other),
    }
    let file = header_bytes(2, 100 * 1024 * 1024, 7);
    let h = parse_header(1 << 40, &file).unwrap();
    assert_eq!(h.manifest_size, 104857600);
    assert_eq!(h.metadata_signature_size, 7);
    assert_eq!(data_blob_offset(&h), 24 + 104857600 + 7);
}

#[test]
fn small_files_are_refused() {
    match parse_header(23, &[]) {
        Err(e @ PayloadError::FileTooSmall(23, 24)) => assert_eq!(
            e.to_string(),
            "File too small (23 bytes) to be a valid payload. Minimum size is 24 bytes."
        ),
        other => panic!("unexpected {:?}", other),
    }
    assert!(matches!(parse_header(30, b"CrAU"), Err(PayloadError::UnexpectedEof(_))));
}

#[test]
fn empty_path_json() {
    let msg = PayloadError::EmptyPath.to_string();
    assert_eq!(msg, "Path is empty");
    assert_eq!(extraction_error_to_json(&msg), r#"{"status":"error","message":"Path is empty"}"#);
    assert_eq!(inspection_error_to_json(&msg), r#"{"error": "Path is empty"}"#);
}

#[test]
fn json_messages_replace_double_quotes() {
    assert_eq!(inspection_error_to_json(r#"bad "name""#), r#"{"error": "bad 'name'"}"#);
    assert_eq!(
        extraction_error_to_json(r#"say "hi""#),
        r#"{"status":"error","message":"say 'hi'"}"#
    );
}

fn two_partition_payload() -> (Vec<u8>, PayloadHeader) {
    let m = manifest(&[
        partition("a", Some(4), &[operation(0, 0, 4)]),
        partition("b", Some(2), &[operation(0, 4, 2)]),
    ]);
    let mut file = header_bytes(2, m.len() as u64, 0);
    file.extend_from_slice(&m);
    file.extend_from_slice(b"AAAABB");
    let header = parse_header(file.len() as u64, &file[..24]).unwrap();
    (file, header)
}

#[test]
fn two_partition_extract_with_replace_only() {
    let (file, header) = two_partition_payload();
    let ms = header.manifest_size as usize;
    let decoded = decode_manifest(&file[24..24 + ms]).unwrap();
    let plan = plan_extraction(&decoded, data_blob_offset(&header), file.len() as u64, "out").unwrap();
    assert!(plan.stop.is_none());
    assert_eq!(plan.total_bytes, 6);
    let mut events = Vec::new();
    let mut images = Vec::new();
    for p in &plan.partitions {
        events.push((p.name.clone(), p.start));
        let mut image = Vec::new();
        for r in &p.reads {
            let seg = file[r.offset as usize..(r.offset + r.length) as usize].to_vec();
            image.extend(decode_segment(r.op_type, seg).unwrap());
        }
        events.push((p.name.clone(), p.end));
        images.push((p.output_path.clone(), image));
    }
    let ev = |n: &str, percent: u32, done: u64| (n.to_string(), ProgressEvent { percent, bytes_processed: done, total_bytes: 6 });
    assert_eq!(events, vec![ev("a", 0, 0), ev("a", 66, 4), ev("b", 66, 4), ev("b", 100, 6)]);
    assert_eq!(images, vec![("out/a.img".to_string(), b"AAAA".to_vec()), ("out/b.img".to_string(), b"BB".to_vec())]);
}

#[test]
fn extraction_plan_is_the_same_twice() {
    let (file, header) = two_partition_payload();
    let ms = header.manifest_size as usize;
    let first = plan_extraction(&decode_manifest(&file[24..24 + ms]).unwrap(), data_blob_offset(&header), file.len() as u64, "o/").unwrap();
    let second = plan_extraction(&decode_manifest(&file[24..24 + ms]).unwrap(), data_blob_offset(&header), file.len() as u64, "o/").unwrap();
    assert_eq!(first.partitions.len(), second.partitions.len());
    for (a, b) in first.partitions.iter().zip(second.partitions.iter()) {
        assert_eq!(a.output_path, b.output_path);
        assert_eq!(a.reads, b.reads);
        assert_eq!((a.start, a.end), (b.start, b.end));
    }
    assert_eq!(first.partitions[0].output_path, "o/a.img");
}

#[test]
fn partitions_are_sorted_and_summed() {
    let m = manifest(&[
        partition("system", Some(3 * 1024 * 1024), &[operation(0, 0, 1), operation(1, 1, 1)]),
        partition("boot", Some(1536), &[]),
        partition("vendor", None, &[operation(8, 2, 1)]),
        partition("boot", Some(1), &[]),
    ]);
    let decoded = decode_manifest(&m).unwrap();
    let header = PayloadHeader { version: 2, manifest_size: m.len() as u64, metadata_signature_size: 0 };
    let ins = inspect_manifest(header, &decoded, "p", None).unwrap();
    let names: Vec<&str> = ins.partitions.iter().map(|p| p.name.as_str()).collect();
    assert_eq!(names, vec!["boot", "boot", "system", "vendor"]);
    let sizes: Vec<u64> = ins.partitions.iter().map(|p| p.size).collect();
    assert_eq!(sizes, vec![1536, 1, 3 * 1024 * 1024, 0]);
    assert_eq!(ins.partitions[0].size_human, "1.50 KB");
    assert_eq!(ins.partitions[2].operations_count, 2);
    assert_eq!(ins.partitions[2].size_human, "3.00 MB");
    assert_eq!(ins.total_size, 3 * 1024 * 1024 + 1537);
    assert_eq!(ins.total_size, ins.partitions.iter().map(|p| p.size).sum::<u64>());
}

#[test]
fn names_sort_by_code_point() {
    let m = manifest(&[partition("é", None, &[]), partition("z", None, &[]), partition("Z", None, &[]), partition("", None, &[])]);
    let decoded = decode_manifest(&m).unwrap();
    let header = PayloadHeader { version: 2, manifest_size: 0, metadata_signature_size: 0 };
    let ins = inspect_manifest(header, &decoded, "p", None).unwrap();
    let names: Vec<&str> = ins.partitions.iter().map(|p| p.name.as_str()).collect();
    assert_eq!(names, vec!["", "Z", "z", "é"]);
}

#[test]
fn overflowing_sizes_are_refused() {
    let m = manifest(&[partition("a", Some(u64::MAX), &[]), partition("b", Some(1), &[])]);
    let decoded = decode_manifest(&m).unwrap();
    let header = PayloadHeader { version: 2, manifest_size: 0, metadata_signature_size: 0 };
    assert!(matches!(inspect_manifest(header, &decoded, "p", None), Err(PayloadError::InvalidInput(_))));
    assert!(matches!(plan_extraction(&decoded, 24, 24, "o"), Err(PayloadError::InvalidInput(_))));
}

#[test]
fn manifest_parameters_are_read() {
    let mut m = Vec::new();
    field_varint(3, 0x1_0000_1000, &mut m);
    field_varint(16, 5, &mut m);
    field_bytes(18, b"2024-05-01", &mut m);
    field_bytes(99, b"ignored", &mut m);
    m.extend_from_slice(&[(98 << 3) | 1, 1, 2, 3, 4, 5, 6, 7, 8]);
    m.extend_from_slice(&[(97u8 << 3) | 5, 1, 2, 3, 4]);
    let decoded = decode_manifest(&m).unwrap();
    assert_eq!(decoded.block_size, Some(0x1000));
    assert_eq!(decoded.partial_update, Some(true));
    assert_eq!(decoded.security_patch_level.as_deref(), Some("2024-05-01"));
    let header = PayloadHeader { version: 2, manifest_size: m.len() as u64, metadata_signature_size: 0 };
    let ins = inspect_manifest(header, &decoded, "p", None).unwrap();
    assert_eq!(ins.block_size, 0x1000);
    assert!(ins.partial_update);
    assert!(ins.partitions.is_empty());
}

#[test]
fn operations_keep_their_fields() {
    let mut op = operation(8, 100, 7);
    field_varint(2, 200, &mut op);
    let m = manifest(&[partition("x", Some(9), &[op, operation(1, 0, 0)])]);
    let d = decode_manifest(&m).unwrap();
    let p = &d.partitions[0];
    assert_eq!(p.partition_name, "x");
    assert_eq!(p.new_partition_size, Some(9));
    assert_eq!(p.operations.len(), 2);
    assert_eq!(p.operations[0].op_type, REPLACE_XZ);
    assert_eq!(p.operations[0].data_offset, Some(200));
    assert_eq!(p.operations[0].data_length, Some(7));
    assert_eq!(p.operations[1].op_type, REPLACE_BZ);
    let plan = plan_extraction(&d, 1000, 1207, "").unwrap();
    let reads = &plan.partitions[0].reads;
    assert_eq!(reads.len(), 1);
    assert_eq!((reads[0].offset, reads[0].length, reads[0].op_index), (1200, 7, 0));
    assert_eq!(plan.partitions[0].output_path, "x.img");
}

#[test]
fn malformed_manifests_are_refused() {
    let bad: Vec<Vec<u8>> = vec![
        vec![0x80],
        vec![0x6a, 0x05, 0x0a],
        vec![0x00, 0x01],
        vec![0x1a, 0x01, 0x00],
        vec![0x6a, 0x03, 0x0a, 0x01, 0xff],
        vec![0x0b],
        vec![0x08, 0xff, 0xff, 0xff, 0xff, 0xff, 0xff, 0xff, 0xff, 0xff, 0x02],
    ];
    for b in bad {
        assert!(matches!(decode_manifest(&b), Err(PayloadError::ProtobufDecode(_))), "{:?}", b);
    }
    assert!(decode_manifest(&[0x08, 0xff, 0xff, 0xff, 0xff, 0xff, 0xff, 0xff, 0xff, 0xff, 0x01]).is_ok());
    assert!(decode_manifest(&[]).is_ok());
}

#[test]
fn unsafe_names_stop_the_plan() {
    for name in ["../etc", "a/b", "..", "a\\b", ""] {
        assert!(!is_safe_partition_name(name), "{}", name);
    }
    assert!(is_safe_partition_name("system_a"));
    assert!(is_safe_partition_name(".."[..1].as_ref()));
    let m = manifest(&[partition("ok", Some(1), &[]), partition("../x", Some(1), &[]), partition("c", None, &[])]);
    let d = decode_manifest(&m).unwrap();
    let plan = plan_extraction(&d, 24, 24, "out").unwrap();
    assert_eq!(plan.partitions.len(), 1);
    match plan.stop {
        Some(e @ PayloadError::InvalidInput(_)) => assert_eq!(e.to_string(), "Invalid input: unsafe partition name"),
        other => panic!("unexpected {:?}", other),
    }
}

#[test]
fn unaddressable_segments_stop_the_plan() {
    let m = manifest(&[
        partition("a", Some(1), &[operation(0, 0, 1)]),
        partition("b", Some(1), &[operation(0, 1, 1), operation(0, 0, 0), operation(0, 2, 5)]),
    ]);
    let d = decode_manifest(&m).unwrap();
    let plan = plan_extraction(&d, 24, 30, "out").unwrap();
    assert_eq!(plan.partitions.len(), 1);
    match plan.stop {
        Some(e @ PayloadError::Io(_)) => assert_eq!(
            e.to_string(),
            "IO error reading file: read data segment: operation 2 of partition b lies beyond the end of the payload"
        ),
        other => panic!("unexpected {:?}", other),
    }
    let fits = plan_extraction(&d, 24, 31, "out").unwrap();
    assert!(fits.stop.is_none());
    let m = manifest(&[partition("a", Some(1), &[operation(0, u64::MAX - 10, 20)])]);
    let d = decode_manifest(&m).unwrap();
    let plan = plan_extraction(&d, 24, u64::MAX, "out").unwrap();
    assert!(plan.partitions.is_empty());
    assert!(matches!(plan.stop, Some(PayloadError::Io(_))));
}

#[test]
fn progress_with_nothing_to_do() {
    assert_eq!(progress_percent(0, 0, false), 0);
    assert_eq!(progress_percent(0, 0, true), 100);
    assert_eq!(progress_percent(1, 3, false), 33);
    assert_eq!(progress_percent(u64::MAX, u64::MAX, true), 100);
    let m = manifest(&[partition("a", None, &[]), partition("b", None, &[])]);
    let d = decode_manifest(&m).unwrap();
    let plan = plan_extraction(&d, 24, 24, "out").unwrap();
    let percents: Vec<(u32, u32)> = plan.partitions.iter().map(|p| (p.start.percent, p.end.percent)).collect();
    assert_eq!(percents, vec![(0, 100), (0, 100)]);
    let empty = plan_extraction(&decode_manifest(&[]).unwrap(), 24, 24, "out").unwrap();
    assert!(empty.partitions.is_empty() && empty.stop.is_none());
}

#[test]
fn image_paths_join_like_paths() {
    assert_eq!(image_path_of("/sdcard/out", "system"), "/sdcard/out/system.img");
    assert_eq!(image_path_of("/sdcard/out/", "vendor"), "/sdcard/out/vendor.img");
    assert_eq!(image_path_of("", "boot"), "boot.img");
}

#[test]
fn replace_segments_pass_through() {
    assert_eq!(decode_segment(REPLACE, b"raw".to_vec()).unwrap(), b"raw");
    assert_eq!(decode_segment(4, b"src".to_vec()).unwrap(), b"src");
}

#[test]
fn bzip2_segments_are_decoded() {
    let mut enc = bzip2::read::BzEncoder::new(&b"hello hello hello"[..], bzip2::Compression::best());
    let mut packed = Vec::new();
    enc.read_to_end(&mut packed).unwrap();
    assert_eq!(decode_segment(REPLACE_BZ, packed).unwrap(), b"hello hello hello");
    match decode_segment(REPLACE_BZ, b"not bzip2".to_vec()) {
        Err(e @ PayloadError::CodecFailure(Codec::Bzip2, _)) => assert!(e.to_string().starts_with("Bzip2 decompression failed: ")),
        other => panic!("unexpected {:?}", other),
    }
}

#[test]
fn xz_segments_are_decoded() {
    let mut enc = xz2::read::XzEncoder::new(&b"partition bytes"[..], 6);
    let mut packed = Vec::new();
    enc.read_to_end(&mut packed).unwrap();
    assert_eq!(decode_segment(REPLACE_XZ, packed).unwrap(), b"partition bytes");
    match decode_segment(REPLACE_XZ, b"not xz".to_vec()) {
        Err(e @ PayloadError::CodecFailure(Codec::Xz, _)) => assert!(e.to_string().starts_with("XZ decompression failed: ")),
        other => panic!("unexpected {:?}", other),
    }
}

#[test]
fn properties_lines_are_read() {
    let lines: Vec<String> = [
        "FILE_HASH=abc123",
        " FILE_SIZE = 123456789 ",
        "METADATA_HASH=def=456",
        "METADATA_SIZE=+12345",
        "UNKNOWN=1",
        "no equals sign",
        "\u{3000}FILE_HASH\u{a0}=\tzz\r",
    ]
    .iter()
    .map(|s| s.to_string())
    .collect();
    let p = parse_properties(&lines);
    assert_eq!(p.file_hash.as_deref(), Some("zz"));
    assert_eq!(p.file_size, Some(123456789));
    assert_eq!(p.metadata_hash.as_deref(), Some("def=456"));
    assert_eq!(p.metadata_size, Some(12345));
    let kept: Vec<String> = vec!["FILE_SIZE=123".to_string(), "FILE_SIZE=abc".to_string(), "METADATA_SIZE=7".to_string(), "METADATA_SIZE=".to_string()];
    let k = parse_properties(&kept);
    assert_eq!(k.file_size, Some(123));
    assert_eq!(k.metadata_size, Some(7));
    let bad: Vec<String> = vec!["FILE_SIZE=-1".to_string(), "METADATA_SIZE=18446744073709551616".to_string()];
    let q = parse_properties(&bad);
    assert_eq!(q.file_size, None);
    assert_eq!(q.metadata_size, None);
    assert!(q.file_hash.is_none() && q.metadata_hash.is_none());
}

#[test]
fn extraction_result_reports_success() {
    let r = ExtractionResult::success(vec![ExtractedPartition { name: "a".to_string(), size: 4, path: "o/a.img".to_string() }]);
    assert_eq!(r.status, "success");
    assert_eq!(r.extracted.len(), 1);
    assert_eq!(r.extracted[0].size, 4);
}

#[test]
fn host_messages() {
    assert_eq!(hello(), "Hello from Rust! \u{1f980}");
    assert_eq!(process_message("héllo"), "Rust processed: héllo (length: 6, reversed: olléh)");
    assert_eq!(process_message(""), "Rust processed:  (length: 0, reversed: )");
}

/// Whether prost skips every field of `bytes` as unknown fields of a top-level message.
fn prost_skips(bytes: &[u8]) -> bool {
    let mut buf = bytes;
    while !buf.is_empty() {
        let (tag, wire) = match prost::encoding::decode_key(&mut buf) {
            Ok(k) => k,
            Err(_) => return false,
        };
        let ctx = prost::encoding::DecodeContext::default();
        if prost::encoding::skip_field(wire, tag, &mut buf, ctx).is_err() {
            return false;
        }
    }
    true
}

fn nested_groups(levels: usize, inner: &[u8]) -> Vec<u8> {
    let mut v = Vec::new();
    for _ in 0..levels {
        varint((50 << 3) | 3, &mut v);
    }
    v.extend_from_slice(inner);
    for _ in 0..levels {
        varint((50 << 3) | 4, &mut v);
    }
    v
}

#[test]
fn unknown_groups_are_skipped_like_prost() {
    let mut cases: Vec<Vec<u8>> = Vec::new();
    for levels in [1usize, 2, 98, 99, 100, 101] {
        cases.push(nested_groups(levels, &[]));
        cases.push(nested_groups(levels, &[0x08, 0x01]));
        cases.push(nested_groups(levels, &[0x12, 0x02, 0xaa, 0xbb]));
    }
    let mut mismatched = Vec::new();
    varint((50 << 3) | 3, &mut mismatched);
    varint((51 << 3) | 4, &mut mismatched);
    cases.push(mismatched);
    let mut unterminated = Vec::new();
    varint((50 << 3) | 3, &mut unterminated);
    unterminated.extend_from_slice(&[0x08, 0x01]);
    cases.push(unterminated);
    let mut stray_end = Vec::new();
    varint((50 << 3) | 4, &mut stray_end);
    cases.push(stray_end);
    let mut group_then_partition = nested_groups(3, &[0x0d, 1, 2, 3, 4, 0x09, 1, 2, 3, 4, 5, 6, 7, 8]);
    group_then_partition.extend(manifest(&[partition("boot", Some(4), &[])]));
    cases.push(group_then_partition);
    for c in &cases {
        assert_eq!(decode_manifest(c).is_ok(), prost_skips_or_known(c), "{:?}", c);
    }
    assert!(decode_manifest(&nested_groups(99, &[0x08, 0x01])).is_ok());
    assert!(decode_manifest(&nested_groups(100, &[0x08, 0x01])).is_err());
    let with_partition = cases.last().unwrap();
    let d = decode_manifest(with_partition).unwrap();
    assert_eq!(d.partitions.len(), 1);
    assert_eq!(d.partitions[0].new_partition_size, Some(4));
}

/// prost's verdict on bytes whose only known field is a trailing partition list.
fn prost_skips_or_known(bytes: &[u8]) -> bool {
    let mut buf = bytes;
    while !buf.is_empty() {
        let (tag, wire) = match prost::encoding::decode_key(&mut buf) {
            Ok(k) => k,
            Err(_) => return false,
        };
        if tag == 13 {
            return true;
        }
        let ctx = prost::encoding::DecodeContext::default();
        if prost::encoding::skip_field(wire, tag, &mut buf, ctx).is_err() {
            return false;
        }
    }
    prost_skips(bytes) || bytes.is_empty()
}

#[test]
fn groups_inside_partitions_are_skipped() {
    let mut p = partition("vendor", Some(8), &[]);
    p.extend(nested_groups(2, &[0x08, 0x05]));
    let d = decode_manifest(&manifest(&[p])).unwrap();
    assert_eq!(d.partitions[0].partition_name, "vendor");
    let mut deep = partition("vendor", Some(8), &[]);
    deep.extend(nested_groups(100, &[0x08, 0x05]));
    assert!(decode_manifest(&manifest(&[deep])).is_err());
    let mut ok = partition("vendor", Some(8), &[]);
    ok.extend(nested_groups(99, &[0x08, 0x05]));
    assert!(decode_manifest(&manifest(&[ok])).is_ok());
}

#[test]
fn magic_is_decided_on_four_bytes() {
    match check_magic(b"CrAV") {
        Err(PayloadError::InvalidMagic(s, v)) => {
            assert_eq!(s, "CrAV");
            assert_eq!(v, 0x4372_4156);
        }
        other => panic!("unexpected {:?}", other),
    }
    assert!(check_magic(b"CrAU").is_ok());
    assert!(matches!(check_magic(b"Cr"), Err(PayloadError::UnexpectedEof(_))));
}
