use wmbus::modet::threeoutofsix::ThreeOutOfSix;
use wmbus::stack::phl::{is_valid_crc, Error, FrameMetadata};
use wmbus::stack::Mode;

#[test]
fn can_derive_frame_length() {
    assert_eq!(
        FrameMetadata {
            mode: Mode::ModeCFFB,
            frame_offset: 2,
            frame_length: 1 + 0x4E
        },
        FrameMetadata::read(&[0x54, 0x3D, 0x4E]).unwrap()
    );
    assert_eq!(
        FrameMetadata {
            mode: Mode::ModeCFFB,
            frame_offset: 0,
            frame_length: 1 + 0x4E
        },
        // This is invalid three-of-six
        FrameMetadata::read(&[0x4E, 0x44, 0x00]).unwrap()
    );
    assert_eq!(
        Err(Error::Incomplete),
        // This is valid three-of-six
        FrameMetadata::read(&[0x4F, 0x44, 0x00])
    );
    assert_eq!(
        FrameMetadata {
            mode: Mode::ModeCFFB,
            frame_offset: 0,
            frame_length: 1 + 0x4E
        },
        FrameMetadata::read(&[
            0x4E, 0x44, 0x2D, 0x2C, 0x98, 0x27, 0x04, 0x67, 0x30, 0x04, 0x91, 0x53, 0x7A, 0xA6,
            0x10, 0x40, 0x25, 0x6D
        ])
        .unwrap()
    );
    assert_eq!(
        FrameMetadata {
            mode: Mode::ModeTMTO,
            frame_offset: 0,
            frame_length: 10 + 2 + 6 + 2
        },
        // 0x5a971c = 0b010110_101001_011100_011100, i.e. 0b0000_1111_0100_0100, i.e. 0x0F44?
        FrameMetadata::read(&[0x5a, 0x97, 0x1c]).unwrap()
    );
}

#[test]
fn detects_bad_syncword() {
    assert_eq!(Err(Error::Syncword), FrameMetadata::read(&[0x54, 0x99, 0x00]));
}

#[test]
fn reports_incomplete_on_short_prefix() {
    assert_eq!(Err(Error::Incomplete), FrameMetadata::read(&[0x54, 0x3D]));
}

#[test]
fn detects_invalid_length_behind_syncword() {
    // L = 4 gives a frame of 5 bytes, below the format B minimum of 13.
    assert_eq!(
        Err(Error::InvalidLength),
        FrameMetadata::read(&[0x54, 0x3D, 0x04])
    );
}

#[test]
fn reports_first_bad_symbol() {
    // Neither 0x54 first nor 0x44 second: must be three-of-six, but the
    // first symbol 0b000000 has weight zero.
    assert_eq!(
        Err(Error::ThreeOutOfSix(
            wmbus::modet::threeoutofsix::Error::Symbol(0)
        )),
        FrameMetadata::read(&[0x00, 0x00, 0x00])
    );
}

#[test]
fn checksum_matches_reference_vector() {
    // CRC-16/EN-13757 of "123456789" is 0xC2B7 and is stored big-endian.
    let block = [
        0x31, 0x32, 0x33, 0x34, 0x35, 0x36, 0x37, 0x38, 0x39, 0xC2, 0xB7,
    ];
    assert!(is_valid_crc(&block));
    let mut corrupted = block;
    corrupted[0] ^= 0x01;
    assert!(!is_valid_crc(&corrupted));
    let mut wrong_check = block;
    wrong_check[9] = 0x00;
    assert!(!is_valid_crc(&wrong_check));
}

#[test]
fn first_frame_block_passes_crc() {
    // The first block of a frame format A capture: 10 data bytes and
    // their stored checksum.
    let block = [
        0x4E, 0x44, 0x2D, 0x2C, 0x98, 0x27, 0x04, 0x67, 0x30, 0x04, 0x91, 0x53,
    ];
    assert!(is_valid_crc(&block));
}

#[test]
fn mode_detection_is_deterministic() {
    let frame = [0x4E, 0x44, 0x2D, 0x2C, 0x98, 0x27, 0x04, 0x67];
    assert_eq!(FrameMetadata::read(&frame), FrameMetadata::read(&frame));
}

#[test]
fn ambiguous_prefix_resolves_to_mode_t_on_crc_pass() {
    // Build a valid 17-byte frame format A frame whose three-of-six
    // encoding has 0x44 as its second byte: L = 0x0C puts symbol 52
    // (…0100) before the straddling symbol 19 (0100…) of C = 0x74.
    let crc = crc::Crc::<u16>::new(&crc::CRC_16_EN_13757);
    let mut frame: Vec<u8> = vec![0x0C, 0x74, 0x2D, 0x2C, 0x78, 0x56, 0x34, 0x12, 0x01, 0x32];
    let c0 = crc.checksum(&frame);
    frame.extend_from_slice(&c0.to_be_bytes());
    let block1 = [0x7A, 0x01, 0x02];
    frame.extend_from_slice(&block1);
    let c1 = crc.checksum(&block1);
    frame.extend_from_slice(&c1.to_be_bytes());
    assert_eq!(17, frame.len());

    let mut encoded = vec![0u8; 26];
    let bits = ThreeOutOfSix::encode(&mut encoded, &frame).unwrap();
    assert_eq!(12 * 17, bits);
    assert_ne!(0x54, encoded[0]);
    assert_eq!(0x44, encoded[1]);

    // The tie-break decodes the first block and its checksum passes.
    assert_eq!(
        FrameMetadata {
            mode: Mode::ModeTMTO,
            frame_offset: 0,
            frame_length: 17
        },
        FrameMetadata::read(&encoded).unwrap()
    );

    // The whole frame also reads through the stack.
    let stack = wmbus::stack::Stack::without_ell();
    let packet = stack.read::<240>(&encoded, Mode::ModeTMTO).unwrap();
    assert_eq!(12345678, packet.dll.unwrap().address.serial_number());
    assert_eq!(vec![0x7A, 0x01, 0x02], packet.apl);
}

#[test]
fn ambiguous_prefix_falls_back_to_ffb_on_crc_fail() {
    // The same construction with a corrupted first-block checksum: the
    // symbols stay valid, the tie-break CRC fails, and the prefix is
    // taken for a Mode C frame format B frame.
    let crc = crc::Crc::<u16>::new(&crc::CRC_16_EN_13757);
    let mut frame: Vec<u8> = vec![0x0C, 0x74, 0x2D, 0x2C, 0x78, 0x56, 0x34, 0x12, 0x01, 0x32];
    let c0 = crc.checksum(&frame) ^ 0x0001;
    frame.extend_from_slice(&c0.to_be_bytes());
    frame.extend_from_slice(&[0x7A, 0x01, 0x02, 0x00, 0x00]);

    let mut encoded = vec![0u8; 26];
    ThreeOutOfSix::encode(&mut encoded, &frame).unwrap();
    assert_eq!(0x44, encoded[1]);

    assert_eq!(
        FrameMetadata {
            mode: Mode::ModeCFFB,
            frame_offset: 0,
            frame_length: 1 + encoded[0] as usize
        },
        FrameMetadata::read(&encoded).unwrap()
    );
}
