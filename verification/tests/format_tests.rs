use rex::error::RexError;
use rex::format::{
    assemble_bundle, has_no_separator, magic_bytes, write_trailer, BundleMetadata, MAGIC_LEN,
    MAX_NAME_LEN, METADATA_LEN,
};

#[test]
fn marker_is_the_ascii_text() {
    assert_eq!(magic_bytes(), b"REX_BUNDLE".to_vec());
    assert_eq!(magic_bytes().len(), MAGIC_LEN);
}

#[test]
fn metadata_is_twelve_little_endian_bytes() {
    let m = BundleMetadata { payload_size: 0x0102_0304_0506_0708, target_bin_name_len: 0x0a0b_0c0d };
    let bytes = m.encode();
    assert_eq!(bytes.len(), METADATA_LEN);
    assert_eq!(
        bytes,
        vec![0x08, 0x07, 0x06, 0x05, 0x04, 0x03, 0x02, 0x01, 0x0d, 0x0c, 0x0b, 0x0a]
    );
}

#[test]
fn metadata_matches_the_integers_own_encoding() {
    for &(size, len) in &[(0u64, 0u32), (1, 1), (300, 256), (u64::MAX, u32::MAX), (1 << 40, 7)] {
        let m = BundleMetadata { payload_size: size, target_bin_name_len: len };
        let mut expected = size.to_le_bytes().to_vec();
        expected.extend_from_slice(&len.to_le_bytes());
        assert_eq!(m.encode(), expected);
    }
}

#[test]
fn metadata_decodes_what_it_encoded() {
    for &(size, len) in &[(0u64, 0u32), (5, 2), (u64::MAX, u32::MAX), (0xdead_beef, 256)] {
        let m = BundleMetadata { payload_size: size, target_bin_name_len: len };
        let bytes = m.encode();
        assert_eq!(BundleMetadata::decode(&bytes, 0), m);
    }
}

#[test]
fn metadata_decodes_at_an_offset() {
    let mut bytes = vec![0xffu8; 3];
    bytes.extend_from_slice(&[5, 0, 0, 0, 0, 0, 0, 0, 2, 0, 0, 0]);
    bytes.push(0xee);
    let m = BundleMetadata::decode(&bytes, 3);
    assert_eq!(m.payload_size, 5);
    assert_eq!(m.target_bin_name_len, 2);
}

#[test]
fn trailer_is_name_record_marker() {
    let t = write_trailer("ls", 5).unwrap();
    let mut expected = b"ls".to_vec();
    expected.extend_from_slice(&[5, 0, 0, 0, 0, 0, 0, 0]);
    expected.extend_from_slice(&[2, 0, 0, 0]);
    expected.extend_from_slice(b"REX_BUNDLE");
    assert_eq!(t, expected);
    assert_eq!(t.len(), 2 + 12 + 10);
}

#[test]
fn trailer_counts_the_name_in_bytes() {
    let t = write_trailer("h\u{e9}llo", 0).unwrap();
    assert_eq!(t.len(), 6 + 12 + 10);
    assert_eq!(&t[..6], "h\u{e9}llo".as_bytes());
    assert_eq!(&t[14..18], &[6, 0, 0, 0]);
}

#[test]
fn trailer_refuses_an_empty_name() {
    assert_eq!(write_trailer("", 1), Err(RexError::InvalidName));
}

#[test]
fn trailer_refuses_a_name_with_a_separator() {
    assert_eq!(write_trailer("bin/ls", 1), Err(RexError::InvalidName));
    assert_eq!(write_trailer("/", 1), Err(RexError::InvalidName));
}

#[test]
fn trailer_takes_a_name_of_256_bytes_and_no_longer() {
    let longest = "n".repeat(MAX_NAME_LEN);
    assert!(write_trailer(&longest, 1).is_ok());
    let too_long = "n".repeat(MAX_NAME_LEN + 1);
    assert_eq!(write_trailer(&too_long, 1), Err(RexError::InvalidName));
}

#[test]
fn separator_check_reads_every_byte() {
    assert!(has_no_separator(b""));
    assert!(has_no_separator(b"hello.so.6"));
    assert!(!has_no_separator(b"/hello"));
    assert!(!has_no_separator(b"hello/"));
    assert!(!has_no_separator(b"he/llo"));
}

#[test]
fn bundle_is_host_payload_trailer() {
    let host = b"\x7fELFhost".to_vec();
    let payload = vec![9u8, 8, 7];
    let image = assemble_bundle(&host, &payload, "hello").unwrap();
    let mut expected = host.clone();
    expected.extend_from_slice(&payload);
    expected.extend_from_slice(b"hello");
    expected.extend_from_slice(&3u64.to_le_bytes());
    expected.extend_from_slice(&5u32.to_le_bytes());
    expected.extend_from_slice(b"REX_BUNDLE");
    assert_eq!(image, expected);
}

#[test]
fn bundle_ends_with_the_marker() {
    let image = assemble_bundle(b"host", b"payload", "ls").unwrap();
    assert_eq!(&image[image.len() - 10..], b"REX_BUNDLE");
    assert_eq!(&image[..4], b"host");
}

#[test]
fn bundle_refuses_a_bad_name() {
    assert_eq!(assemble_bundle(b"host", b"payload", "a/b"), Err(RexError::InvalidName));
    assert_eq!(assemble_bundle(b"host", b"payload", ""), Err(RexError::InvalidName));
}

#[test]
fn errors_give_the_exit_code() {
    assert_eq!(RexError::CorruptTrailer.exit_code(), 1);
    assert_eq!(RexError::NoPayload.exit_code(), 1);
    assert_eq!(RexError::IoError.exit_code(), 1);
    assert_eq!(RexError::ChildFailure(42).exit_code(), 42);
    assert!(RexError::LoaderMissing.is_reported());
    assert!(RexError::TargetMissing.is_reported());
    assert!(!RexError::ChildFailure(3).is_reported());
}

#[test]
fn bundle_mode_is_rwxr_xr_x() {
    assert_eq!(rex::format::BUNDLE_MODE, 0o755);
}
