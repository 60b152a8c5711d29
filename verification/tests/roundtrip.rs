use wmbus::address::{get_layout, FieldLayout};
use wmbus::stack::dll::DllFields;
use wmbus::stack::phl::{is_valid_crc, Error};
use wmbus::stack::{Mode, Packet, ReadError, Stack};
use wmbus::{DeviceType, ManufacturerCode, WMBusAddress};

fn sample_packet(apl: &[u8]) -> Packet<240> {
    let mut packet: Packet<240> = Packet::new(Mode::ModeCFFB);
    packet.dll = Some(DllFields {
        control: 0x44,
        address: WMBusAddress::new(ManufacturerCode::KAM, 12345678, 0x01, DeviceType::Repeater),
    });
    packet.apl.extend_from_slice(apl);
    packet
}

#[test]
fn write_then_read_preserves_packet() {
    let stack = Stack::without_ell();
    let packet = sample_packet(&[0xA0, 0x00, 0x01, 0x02, 0x03, 0x04, 0x05, 0x06]);

    let mut writer: Vec<u8> = Vec::new();
    stack.write(&mut writer, &packet).unwrap();
    let read_back = stack.read::<240>(&writer, Mode::ModeCFFB).unwrap();

    assert_eq!(Mode::ModeCFFB, read_back.mode);
    assert_eq!(packet.dll, read_back.dll);
    assert_eq!(packet.apl, read_back.apl);
    assert!(read_back.ell.is_none());
    assert_eq!(Some(writer.len()), read_back.frame_len);
}

#[test]
fn write_then_read_preserves_split_packet() {
    let stack = Stack::without_ell();
    let apl: Vec<u8> = (0..200u8).collect();
    let packet = sample_packet(&apl);

    let mut writer: Vec<u8> = Vec::new();
    stack.write(&mut writer, &packet).unwrap();
    assert_eq!(214, writer.len());
    let read_back = stack.read::<240>(&writer, Mode::ModeCFFB).unwrap();

    assert_eq!(packet.dll, read_back.dll);
    assert_eq!(packet.apl, read_back.apl);
}

#[test]
fn emitted_blocks_pass_crc() {
    let stack = Stack::without_ell();

    // Single block: the whole frame carries one checksum.
    let mut writer: Vec<u8> = Vec::new();
    stack
        .write(&mut writer, &sample_packet(&[0xA0, 0x01, 0x02]))
        .unwrap();
    assert!(is_valid_crc(&writer));

    // Two blocks: each checks on its own.
    let apl: Vec<u8> = (0..150u8).collect();
    let mut writer: Vec<u8> = Vec::new();
    stack.write(&mut writer, &sample_packet(&apl)).unwrap();
    assert!(is_valid_crc(&writer[..128]));
    assert!(is_valid_crc(&writer[128..]));
}

#[test]
fn corrupted_frame_reports_crc_block() {
    let stack = Stack::without_ell();
    let mut writer: Vec<u8> = Vec::new();
    stack
        .write(&mut writer, &sample_packet(&[0xA0, 0x01, 0x02]))
        .unwrap();
    writer[1] ^= 0xFF;
    assert!(matches!(
        stack.read::<240>(&writer, Mode::ModeCFFB),
        Err(ReadError::Phl(Error::Crc(0)))
    ));
}

#[test]
fn second_block_crc_failure_names_block_one() {
    let stack = Stack::without_ell();
    let apl: Vec<u8> = (0..150u8).collect();
    let mut writer: Vec<u8> = Vec::new();
    stack.write(&mut writer, &sample_packet(&apl)).unwrap();
    let last = writer.len() - 1;
    writer[last] ^= 0xFF;
    assert!(matches!(
        stack.read::<240>(&writer, Mode::ModeCFFB),
        Err(ReadError::Phl(Error::Crc(1)))
    ));
}

#[test]
fn oversized_payload_is_a_capacity_error() {
    let stack = Stack::without_ell();
    let mut writer: Vec<u8> = Vec::new();
    stack
        .write(&mut writer, &sample_packet(&[0xA0, 0x01, 0x02, 0x03, 0x04]))
        .unwrap();
    assert!(matches!(
        stack.read::<2>(&writer, Mode::ModeCFFB),
        Err(ReadError::Capacity)
    ));
}

#[test]
fn reencoded_diehl_address_stays_stable() {
    // An address captured in the Diehl layout re-encodes to the default
    // layout; parsing that encoding gives the same fields back.
    let address =
        WMBusAddress::from_bytes([0x24, 0x23, 0x20, 0x0C, 0x61, 0x04, 0x34, 0x48]).unwrap();
    assert_eq!(48340461, address.serial_number());
    let reparsed = WMBusAddress::from_bytes(address.get_bytes()).unwrap();
    assert_eq!(address, reparsed);
}

#[test]
fn layout_detection_follows_fingerprint() {
    assert_eq!(
        FieldLayout::Diehl,
        get_layout(&[0x24, 0x23, 0x20, 0x0C, 0x61, 0x04, 0x34, 0x48])
    );
    assert_eq!(
        FieldLayout::Default,
        get_layout(&[0x2D, 0x2C, 0x78, 0x56, 0x34, 0x12, 0x01, 0x32])
    );
    // Sharky fingerprint with a serial outside the Diehl ranges.
    assert_eq!(
        FieldLayout::Default,
        get_layout(&[0x24, 0x23, 0x20, 0x04, 0x00, 0x00, 0x00, 0x10])
    );
}

#[test]
fn packet_with_apl_fills_payload() {
    let packet: Packet<4> = Packet::with_apl(Mode::ModeCFFB, [1, 2, 3, 4]);
    assert_eq!(vec![1, 2, 3, 4], packet.apl);
    assert!(packet.dll.is_none());
    assert!(packet.frame_len.is_none());
}

#[test]
fn short_ffb_frame_is_invalid_length() {
    let stack = Stack::without_ell();
    // L = 4 announces a 5-byte frame, below the format B minimum.
    let frame = [0x04u8, 0x44, 0x2D, 0x2C, 0x78];
    assert!(matches!(
        stack.read::<240>(&frame, Mode::ModeCFFB),
        Err(ReadError::Phl(Error::InvalidLength))
    ));
}

#[test]
fn truncated_ffb_frame_is_incomplete() {
    let stack = Stack::without_ell();
    // L = 0x13 announces 20 bytes; only 4 are present.
    let frame = [0x13u8, 0x44, 0x2D, 0x2C];
    assert!(matches!(
        stack.read::<240>(&frame, Mode::ModeCFFB),
        Err(ReadError::Incomplete)
    ));
}

#[test]
fn bad_address_bcd_is_a_dll_error() {
    let stack = Stack::without_ell();
    // A frame with an address whose BCD serial holds hex digits; the
    // checksum is freshly computed so only the address can fail.
    let crc = crc::Crc::<u16>::new(&crc::CRC_16_EN_13757);
    let mut frame: Vec<u8> = vec![
        0x0D, 0x44, 0x2D, 0x2C, 0xAB, 0xCD, 0xEF, 0x12, 0x01, 0x32, 0x7A, 0x00,
    ];
    let checksum = crc.checksum(&frame);
    frame.extend_from_slice(&checksum.to_be_bytes());
    assert!(matches!(
        stack.read::<240>(&frame, Mode::ModeCFFB),
        Err(ReadError::Dll(wmbus::stack::dll::Error::BcdConversion))
    ));
}
