use rex::codec::{create_payload, extract_payload, level_is_valid, opened, sealed, DEFAULT_LEVEL};
use rex::error::RexError;
use rex::format::BundleMetadata;
use rex::trailer::PayloadInfo;

fn info_for(size: u64) -> PayloadInfo {
    PayloadInfo {
        metadata: BundleMetadata { payload_size: size, target_bin_name_len: 1 },
        payload_start_offset: 0,
        target_binary_name: String::from("x"),
    }
}

#[test]
fn levels_from_1_to_22_are_valid() {
    assert_eq!(DEFAULT_LEVEL, 5);
    assert!(level_is_valid(1));
    assert!(level_is_valid(5));
    assert!(level_is_valid(22));
    assert!(!level_is_valid(0));
    assert!(!level_is_valid(23));
    assert!(!level_is_valid(-1));
    assert!(!level_is_valid(i32::MAX));
    assert!(!level_is_valid(i32::MIN));
}

#[test]
fn payload_is_a_zstd_frame() {
    let archive = vec![b'a'; 10_000];
    let frame = create_payload(&archive, 5).unwrap();
    assert_eq!(&frame[..4], &[0x28, 0xb5, 0x2f, 0xfd]);
    assert!(frame.len() < archive.len());
    assert_ne!(frame, archive);
}

#[test]
fn payload_comes_back_as_it_went_in() {
    let mut archive = Vec::new();
    for i in 0..50_000u32 {
        archive.push((i % 251) as u8);
    }
    for level in [1, 5, 19, 22] {
        let frame = create_payload(&archive, level).unwrap();
        let back = extract_payload(&info_for(frame.len() as u64), &frame).unwrap();
        assert_eq!(back, archive);
    }
}

#[test]
fn empty_archive_comes_back_empty() {
    let frame = create_payload(&[], 5).unwrap();
    assert!(!frame.is_empty());
    let back = extract_payload(&info_for(frame.len() as u64), &frame).unwrap();
    assert!(back.is_empty());
}

#[test]
fn level_outside_the_range_is_refused() {
    assert_eq!(create_payload(b"data", 0), Err(RexError::InvalidLevel));
    assert_eq!(create_payload(b"data", 23), Err(RexError::InvalidLevel));
    assert_eq!(create_payload(b"data", -3), Err(RexError::InvalidLevel));
}

#[test]
fn payload_of_another_length_is_a_corrupt_trailer() {
    let frame = create_payload(b"some archive", 5).unwrap();
    let info = info_for(frame.len() as u64 + 1);
    assert_eq!(extract_payload(&info, &frame), Err(RexError::CorruptTrailer));
    let info = info_for(frame.len() as u64);
    assert_eq!(extract_payload(&info, &frame[..frame.len() - 1]), Err(RexError::CorruptTrailer));
}

#[test]
fn payload_that_is_no_frame_is_corrupt() {
    let junk = b"this is not a zstd frame".to_vec();
    assert_eq!(
        extract_payload(&info_for(junk.len() as u64), &junk),
        Err(RexError::CorruptPayload)
    );
}

#[test]
fn damaged_frame_is_corrupt() {
    let archive = vec![b'z'; 4096];
    let mut frame = create_payload(&archive, 5).unwrap();
    let cut = frame.len() - 3;
    frame.truncate(cut);
    assert_eq!(
        extract_payload(&info_for(frame.len() as u64), &frame),
        Err(RexError::CorruptPayload)
    );
}

#[test]
fn sealed_maps_the_encoders_answer() {
    assert_eq!(sealed(5, Some(vec![1, 2, 3])), Ok(vec![1, 2, 3]));
    assert_eq!(sealed(5, None), Err(RexError::IoError));
    assert_eq!(sealed(0, Some(vec![1])), Err(RexError::InvalidLevel));
    assert_eq!(sealed(23, None), Err(RexError::InvalidLevel));
}

#[test]
fn opened_maps_the_decoders_answer() {
    assert_eq!(opened(3, 3, Some(vec![7, 8])), Ok(vec![7, 8]));
    assert_eq!(opened(3, 3, None), Err(RexError::CorruptPayload));
    assert_eq!(opened(4, 3, Some(vec![7, 8])), Err(RexError::CorruptTrailer));
    assert_eq!(opened(4, 3, None), Err(RexError::CorruptTrailer));
}
