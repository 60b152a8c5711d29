use wmbus::modet::threeoutofsix::{Error, ThreeOutOfSix};
use wmbus::modet::THREE_OUT_OF_SIX_ENCODED_MAX;

#[test]
fn encoded_max() {
    let frame_max: usize = 2 + 256 + 16 * 2;
    assert_eq!(290, frame_max);
    assert_eq!(435, THREE_OUT_OF_SIX_ENCODED_MAX);
}

#[test]
pub fn can_encode_example() {
    let data = vec![
        0x2F, 0x44, 0x68, 0x50, 0x27, 0x21, 0x45, 0x30, 0x50, 0x62, 0xBD, 0xCC, 0xA2, 0x06, 0x9F,
        0x1B, 0x11, 0x06, 0xC0, 0x10, 0x00, 0x00, 0x00, 0x00, 0x00, 0x00, 0x00, 0x00, 0x55, 0xA3,
        0x00, 0x00, 0x00, 0x00, 0x00, 0x00, 0x00, 0x00, 0x00, 0x00, 0x00, 0x00, 0x00, 0x00, 0x00,
        0x00, 0xFF, 0xFF, 0x00, 0x00, 0x00, 0x00, 0x00, 0x00, 0xFF, 0xFF,
    ];
    let mut buffer = vec![0u8; 100];
    let encoded_bits = ThreeOutOfSix::encode(&mut buffer, &data).unwrap();
    assert_eq!(12 * data.len(), encoded_bits);
    let encoded_expected: Vec<u8> = vec![
        0x3a, 0x97, 0x1c, 0x6a, 0xc6, 0x56, 0x39, 0x33, 0x8d, 0x71, 0x92, 0xd6, 0x65, 0x66, 0x8e,
        0x8f, 0x1d, 0x34, 0x98, 0xe5, 0x9a, 0x96, 0x93, 0x63, 0x34, 0xd5, 0x9a, 0xd1, 0x63, 0x56,
        0x59, 0x65, 0x96, 0x59, 0x65, 0x96, 0x59, 0x65, 0x96, 0x59, 0x65, 0x96, 0x65, 0x99, 0x8b,
        0x59, 0x65, 0x96, 0x59, 0x65, 0x96, 0x59, 0x65, 0x96, 0x59, 0x65, 0x96, 0x59, 0x65, 0x96,
        0x59, 0x65, 0x96, 0x59, 0x65, 0x96, 0x59, 0x65, 0x96, 0xa6, 0x9a, 0x69, 0x59, 0x65, 0x96,
        0x59, 0x65, 0x96, 0x59, 0x65, 0x96, 0xa6, 0x9a, 0x69,
    ];
    assert_eq!(encoded_bits / 8, encoded_expected.len());
    assert_eq!(encoded_expected.as_slice(), &buffer[..encoded_expected.len()]);
}

#[test]
pub fn can_encode_correctly_terminates() {
    let mut buffer = vec![0u8; 2];
    let data: [u8; 1] = [0x12];
    let encoded = ThreeOutOfSix::encode(&mut buffer, &data).unwrap();

    assert_eq!(12, encoded);
    // Bits 0011_0100_1110, MSB first, over the two buffer bytes.
    assert_eq!(0x34, buffer[0]);
    assert_eq!(0xE0, buffer[1] & 0xF0);
    assert_eq!(0x00, buffer[1] & 0x0F);
}

#[test]
pub fn can_decode() {
    let data = vec![
        0x2F, 0x44, 0x68, 0x50, 0x27, 0x21, 0x45, 0x30, 0x50, 0x62, 0xBD, 0xCC, 0xA2, 0x06, 0x9F,
        0x1B, 0x11, 0x06, 0xC0, 0x10, 0x00, 0x00, 0x00, 0x00, 0x00, 0x00, 0x00, 0x00, 0x55, 0xA3,
        0x00, 0x00, 0x00, 0x00, 0x00, 0x00, 0x00, 0x00, 0x00, 0x00, 0x00, 0x00, 0x00, 0x00, 0x00,
        0x00, 0xFF, 0xFF, 0x00, 0x00, 0x00, 0x00, 0x00, 0x00, 0xFF, 0xFF,
    ];
    let mut encode_buf = vec![0u8; 100];
    let encoded = ThreeOutOfSix::encode(&mut encode_buf, &data).unwrap();
    let mut decode_buf = vec![0u8; 100];
    let decoded = ThreeOutOfSix::decode(&mut decode_buf, &encode_buf, encoded).unwrap();
    assert_eq!(data, decode_buf[..decoded]);
}

#[test]
fn encode_rejects_small_buffer() {
    let mut buffer = vec![0u8; 1];
    assert_eq!(Err(Error::Capacity), ThreeOutOfSix::encode(&mut buffer, &[0x12]));
}

#[test]
fn decode_rejects_partial_symbol() {
    let mut buffer = vec![0u8; 4];
    let input = [0xFFu8, 0xFF];
    assert_eq!(Err(Error::InputLength), ThreeOutOfSix::decode(&mut buffer, &input, 13));
}

#[test]
fn decode_rejects_odd_symbol_count() {
    let mut buffer = vec![0u8; 4];
    let input = [0xFFu8, 0xFF, 0xFF];
    assert_eq!(Err(Error::InputLength), ThreeOutOfSix::decode(&mut buffer, &input, 18));
}

#[test]
fn decode_rejects_invalid_symbol() {
    let mut buffer = vec![0u8; 4];
    // All-zero bits: symbol 0 has weight 0 and cannot be a codeword.
    let input = [0x00u8, 0x00, 0x00];
    assert_eq!(Err(Error::Symbol(0)), ThreeOutOfSix::decode(&mut buffer, &input, 12));
}

#[test]
fn encode_table_symbols_have_weight_three() {
    // One byte carries each nibble pair; every emitted 6-bit symbol must
    // have exactly three 1-bits.
    for n in 0u8..16 {
        let mut buffer = vec![0u8; 2];
        let byte = n * 16 + n;
        ThreeOutOfSix::encode(&mut buffer, &[byte]).unwrap();
        let first = buffer[0] >> 2;
        assert_eq!(3, first.count_ones(), "nibble {}", n);
    }
}
