use wmbus::ctrl::{Controller, Frame, FrameStep};
use wmbus::stack::{Mode, Stack};

#[test]
fn frame_assembly_drives_the_receive_loop() {
    let mut frame = Frame::new(Some(1000));

    // Two bytes are not enough to derive a length.
    frame.extend(&[0x54, 0x3D]);
    assert!(matches!(frame.advance(), FrameStep::NeedMore));

    // The third byte fixes mode and length: syncword, L = 0x13.
    frame.extend(&[0x13]);
    match frame.advance() {
        FrameStep::Accept(total) => assert_eq!(2 + 20, total),
        _ => panic!("expected the length to be accepted"),
    }
    assert_eq!(Mode::ModeCFFB, frame.mode());
    assert_eq!(22, frame.len());
    frame.set_rssi(-70);

    // Not all bytes are in yet.
    assert!(matches!(frame.advance(), FrameStep::NeedMore));

    frame.extend(&[
        0x44, 0x2D, 0x2C, 0x78, 0x56, 0x34, 0x12, 0x01, 0x32, 0xA0, 0x00, 0x01, 0x02, 0x03, 0x04,
        0x05, 0x06, 0xC3, 0xC0,
    ]);
    assert_eq!(22, frame.received());
    assert!(matches!(frame.advance(), FrameStep::Complete));

    let stack = Stack::without_ell();
    let packet = stack.read_from_frame::<240>(&frame).unwrap();
    assert_eq!(Some(-70), packet.rssi);
    assert_eq!(12345678, packet.dll.unwrap().address.serial_number());
    assert_eq!(
        vec![0xA0, 0x00, 0x01, 0x02, 0x03, 0x04, 0x05, 0x06],
        packet.apl
    );
}

#[test]
fn malformed_prefix_restarts_the_receiver() {
    let mut frame = Frame::new(None);
    // Syncword with an unknown second byte.
    frame.extend(&[0x54, 0x99, 0x00]);
    assert!(matches!(frame.advance(), FrameStep::Restart));
}

#[test]
fn controller_hands_its_transceiver_back() {
    let controller = Controller::new(42u32);
    assert!(!controller.listening);
    assert_eq!(42, controller.release());
}
