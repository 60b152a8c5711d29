use wmbus::stack::dll::DllFields;
use wmbus::stack::ell::EllFields;
use wmbus::stack::{Mode, Packet, Stack};
use wmbus::{DeviceType, ManufacturerCode, WMBusAddress};

#[test]
fn header_length_follows_ci() {
    assert_eq!(Some(3), wmbus::stack::ell::header_length(0x8C));
    assert_eq!(Some(9), wmbus::stack::ell::header_length(0x8D));
    assert_eq!(Some(11), wmbus::stack::ell::header_length(0x8E));
    assert_eq!(Some(17), wmbus::stack::ell::header_length(0x8F));
    assert_eq!(None, wmbus::stack::ell::header_length(0x7A));
}

#[test]
fn ci_names_each_variant() {
    assert_eq!(0x8C, EllFields::Short { cc: 0, acc: 0 }.ci());
    assert_eq!(
        0x8D,
        EllFields::Long {
            cc: 0,
            acc: 0,
            sn: 0,
            payload_crc: None
        }
        .ci()
    );
}

#[test]
fn reads_short_extended_header() {
    // Build a valid frame whose payload region starts with a CI byte,
    // then read it back with the extended link layer enabled.
    let without_ell = Stack::without_ell();
    let with_ell = Stack::new();

    let mut packet: Packet<240> = Packet::new(Mode::ModeCFFB);
    packet.dll = Some(DllFields {
        control: 0x44,
        address: WMBusAddress::new(ManufacturerCode::KAM, 12345678, 0x01, DeviceType::Repeater),
    });
    packet.apl.extend_from_slice(&[0x8C, 0x05, 0x07, 0x99, 0x98]);

    let mut writer: Vec<u8> = Vec::new();
    without_ell.write(&mut writer, &packet).unwrap();

    let read_back = with_ell.read::<240>(&writer, Mode::ModeCFFB).unwrap();
    assert_eq!(
        Some(EllFields::Short { cc: 0x05, acc: 0x07 }),
        read_back.ell
    );
    assert_eq!(vec![0x99, 0x98], read_back.apl);

    // Without the layer the same bytes stay in the payload.
    let plain = without_ell.read::<240>(&writer, Mode::ModeCFFB).unwrap();
    assert!(plain.ell.is_none());
    assert_eq!(vec![0x8C, 0x05, 0x07, 0x99, 0x98], plain.apl);
}

#[test]
fn reads_long_extended_header() {
    let without_ell = Stack::without_ell();
    let with_ell = Stack::new();

    let mut packet: Packet<240> = Packet::new(Mode::ModeCFFB);
    packet.dll = Some(DllFields {
        control: 0x44,
        address: WMBusAddress::new(ManufacturerCode::KAM, 12345678, 0x01, DeviceType::Repeater),
    });
    packet
        .apl
        .extend_from_slice(&[0x8D, 0x05, 0x07, 0x78, 0x56, 0x34, 0x12, 0xBB, 0xAA, 0x42]);

    let mut writer: Vec<u8> = Vec::new();
    without_ell.write(&mut writer, &packet).unwrap();

    let read_back = with_ell.read::<240>(&writer, Mode::ModeCFFB).unwrap();
    assert_eq!(
        Some(EllFields::Long {
            cc: 0x05,
            acc: 0x07,
            sn: 0x12345678,
            payload_crc: Some(0xAABB),
        }),
        read_back.ell
    );
    assert_eq!(vec![0x42], read_back.apl);
}

#[test]
fn incomplete_extended_header_is_reported() {
    let without_ell = Stack::without_ell();
    let with_ell = Stack::new();

    let mut packet: Packet<240> = Packet::new(Mode::ModeCFFB);
    packet.dll = Some(DllFields {
        control: 0x44,
        address: WMBusAddress::new(ManufacturerCode::KAM, 12345678, 0x01, DeviceType::Repeater),
    });
    // A long header needs 9 bytes; only 3 are present.
    packet.apl.extend_from_slice(&[0x8D, 0x05, 0x07]);

    let mut writer: Vec<u8> = Vec::new();
    without_ell.write(&mut writer, &packet).unwrap();

    assert!(matches!(
        with_ell.read::<240>(&writer, Mode::ModeCFFB),
        Err(wmbus::stack::ReadError::Incomplete)
    ));
}
