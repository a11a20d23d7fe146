use rex::error::RexError;
use rex::format::{assemble_bundle, write_trailer};
use rex::trailer::{find_last_marker, find_payload_info, TAIL_LEN, WINDOW_LEN};

fn bundle(host: &[u8], payload: &[u8], name: &str) -> Vec<u8> {
    assemble_bundle(host, payload, name).unwrap()
}

#[test]
fn window_and_tail_lengths() {
    assert_eq!(WINDOW_LEN, 12 + 10 + 256);
    assert_eq!(TAIL_LEN, 278 + 12 + 256);
}

#[test]
fn trailer_of_a_bundle_is_found() {
    let host = vec![0x11u8; 1000];
    let payload = vec![0x22u8; 300];
    let image = bundle(&host, &payload, "hello");
    let info = find_payload_info(&image, image.len() as u64).unwrap().unwrap();
    assert_eq!(info.metadata.payload_size, 300);
    assert_eq!(info.metadata.target_bin_name_len, 5);
    assert_eq!(info.payload_start_offset, 1000);
    assert_eq!(info.target_binary_name, "hello");
    let start = info.payload_start_offset as usize;
    assert_eq!(&image[start..start + 300], &payload[..]);
}

#[test]
fn trailer_is_found_from_the_tail_alone() {
    let host = vec![0x11u8; 5000];
    let payload = vec![0x22u8; 700];
    let image = bundle(&host, &payload, "tool");
    let tail = &image[image.len() - TAIL_LEN..];
    let info = find_payload_info(tail, image.len() as u64).unwrap().unwrap();
    assert_eq!(info.payload_start_offset, 5000);
    assert_eq!(info.metadata.payload_size, 700);
    assert_eq!(info.target_binary_name, "tool");
}

#[test]
fn parsing_twice_gives_the_same() {
    let image = bundle(b"host image", b"compressed", "prog");
    let a = find_payload_info(&image, image.len() as u64).unwrap().unwrap();
    let b = find_payload_info(&image, image.len() as u64).unwrap().unwrap();
    assert_eq!(a.metadata, b.metadata);
    assert_eq!(a.payload_start_offset, b.payload_start_offset);
    assert_eq!(a.target_binary_name, b.target_binary_name);
}

#[test]
fn plain_executable_has_no_trailer() {
    let image = vec![0x7fu8; 4096];
    assert!(matches!(find_payload_info(&image, 4096), Ok(None)));
    assert!(matches!(find_payload_info(&[], 0), Ok(None)));
    assert!(matches!(find_payload_info(b"REX_BUNDL", 9), Ok(None)));
}

#[test]
fn marker_inside_the_payload_does_not_mislead() {
    let mut payload = b"some data ".to_vec();
    payload.extend_from_slice(&write_trailer("fake", 3).unwrap());
    payload.extend_from_slice(b" more");
    let host = vec![1u8; 64];
    let image = bundle(&host, &payload, "real");
    let info = find_payload_info(&image, image.len() as u64).unwrap().unwrap();
    assert_eq!(info.target_binary_name, "real");
    assert_eq!(info.payload_start_offset, 64);
    assert_eq!(info.metadata.payload_size, payload.len() as u64);
}

#[test]
fn marker_in_the_name_field_is_not_the_last() {
    let image = bundle(b"host", b"pay", "REX_BUNDLE");
    let info = find_payload_info(&image, image.len() as u64).unwrap().unwrap();
    assert_eq!(info.target_binary_name, "REX_BUNDLE");
    assert_eq!(info.payload_start_offset, 4);
}

#[test]
fn corrupt_last_byte_means_no_payload() {
    let mut image = bundle(&vec![3u8; 500], b"payload", "hello");
    let last = image.len() - 1;
    image[last] ^= 0xff;
    assert!(matches!(find_payload_info(&image, image.len() as u64), Ok(None)));
}

#[test]
fn payload_larger_than_the_file_is_corrupt() {
    let image = bundle(&vec![3u8; 100], &vec![4u8; 1000], "hello");
    let cut = &image[600..];
    assert_eq!(find_payload_info(cut, cut.len() as u64).err(), Some(RexError::CorruptTrailer));
}

#[test]
fn payload_that_just_fits_is_accepted() {
    let image = bundle(b"", &vec![4u8; 50], "x");
    let info = find_payload_info(&image, image.len() as u64).unwrap().unwrap();
    assert_eq!(info.payload_start_offset, 0);
    let short = &image[1..];
    assert_eq!(find_payload_info(short, short.len() as u64).err(), Some(RexError::CorruptTrailer));
}

#[test]
fn zero_name_length_is_corrupt() {
    let mut image = vec![0u8; 40];
    image.extend_from_slice(&0u64.to_le_bytes());
    image.extend_from_slice(&0u32.to_le_bytes());
    image.extend_from_slice(b"REX_BUNDLE");
    assert_eq!(
        find_payload_info(&image, image.len() as u64).err(),
        Some(RexError::CorruptTrailer)
    );
}

#[test]
fn name_longer_than_256_is_corrupt() {
    let mut image = vec![b'a'; 400];
    image.extend_from_slice(&0u64.to_le_bytes());
    image.extend_from_slice(&257u32.to_le_bytes());
    image.extend_from_slice(b"REX_BUNDLE");
    assert_eq!(
        find_payload_info(&image, image.len() as u64).err(),
        Some(RexError::CorruptTrailer)
    );
    let mut ok = vec![b'a'; 400];
    ok.extend_from_slice(&0u64.to_le_bytes());
    ok.extend_from_slice(&256u32.to_le_bytes());
    ok.extend_from_slice(b"REX_BUNDLE");
    let info = find_payload_info(&ok, ok.len() as u64).unwrap().unwrap();
    assert_eq!(info.target_binary_name.len(), 256);
    assert_eq!(info.payload_start_offset, 400 - 256);
}

#[test]
fn name_that_does_not_fit_is_corrupt() {
    let mut image = b"ab".to_vec();
    image.extend_from_slice(&0u64.to_le_bytes());
    image.extend_from_slice(&3u32.to_le_bytes());
    image.extend_from_slice(b"REX_BUNDLE");
    assert_eq!(
        find_payload_info(&image, image.len() as u64).err(),
        Some(RexError::CorruptTrailer)
    );
}

#[test]
fn marker_without_room_for_a_record_is_corrupt() {
    let mut image = vec![0u8; 11];
    image.extend_from_slice(b"REX_BUNDLE");
    assert_eq!(
        find_payload_info(&image, image.len() as u64).err(),
        Some(RexError::CorruptTrailer)
    );
    assert_eq!(find_payload_info(b"REX_BUNDLE", 10).err(), Some(RexError::CorruptTrailer));
}

#[test]
fn name_with_a_separator_is_corrupt() {
    let mut image = b"host".to_vec();
    image.extend_from_slice(b"a/b");
    image.extend_from_slice(&0u64.to_le_bytes());
    image.extend_from_slice(&3u32.to_le_bytes());
    image.extend_from_slice(b"REX_BUNDLE");
    assert_eq!(
        find_payload_info(&image, image.len() as u64).err(),
        Some(RexError::CorruptTrailer)
    );
}

#[test]
fn name_that_is_not_utf8_is_corrupt() {
    let mut image = b"host".to_vec();
    image.extend_from_slice(&[0xff, 0xfe, 0x41]);
    image.extend_from_slice(&0u64.to_le_bytes());
    image.extend_from_slice(&3u32.to_le_bytes());
    image.extend_from_slice(b"REX_BUNDLE");
    assert_eq!(
        find_payload_info(&image, image.len() as u64).err(),
        Some(RexError::CorruptTrailer)
    );
}

#[test]
fn name_is_decoded_from_utf8() {
    let image = bundle(b"host", b"pay", "h\u{e9}llo-\u{4e16}\u{754c}");
    let info = find_payload_info(&image, image.len() as u64).unwrap().unwrap();
    assert_eq!(info.target_binary_name, "h\u{e9}llo-\u{4e16}\u{754c}");
    assert_eq!(info.metadata.target_bin_name_len, 13);
}

#[test]
fn last_marker_is_the_rightmost_in_the_window() {
    let mut bytes = vec![0u8; 20];
    bytes.extend_from_slice(b"REX_BUNDLE");
    bytes.extend_from_slice(&[0u8; 7]);
    bytes.extend_from_slice(b"REX_BUNDLE");
    bytes.extend_from_slice(&[0u8; 3]);
    assert_eq!(find_last_marker(&bytes), Some(37));
    assert_eq!(find_last_marker(&bytes[..40]), Some(20));
    assert_eq!(find_last_marker(&bytes[..29]), None);
}

#[test]
fn marker_before_the_window_is_not_seen() {
    let mut bytes = b"REX_BUNDLE".to_vec();
    bytes.extend_from_slice(&vec![0u8; WINDOW_LEN - 9]);
    assert_eq!(find_last_marker(&bytes), None);
    let mut inside = b"REX_BUNDLE".to_vec();
    inside.extend_from_slice(&vec![0u8; WINDOW_LEN - 10]);
    assert_eq!(find_last_marker(&inside), Some(0));
}

#[test]
fn marker_not_at_the_end_is_still_read() {
    let mut image = vec![7u8; 30];
    image.extend_from_slice(b"ls");
    image.extend_from_slice(&4u64.to_le_bytes());
    image.extend_from_slice(&2u32.to_le_bytes());
    image.extend_from_slice(b"REX_BUNDLE");
    image.extend_from_slice(&[0u8; 6]);
    let info = find_payload_info(&image, image.len() as u64).unwrap().unwrap();
    assert_eq!(info.target_binary_name, "ls");
    assert_eq!(info.payload_start_offset, image.len() as u64 - (10 + 12 + 2 + 4));
}
