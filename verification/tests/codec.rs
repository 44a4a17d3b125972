use sage_mqtt::codec::{
    read_binary_data, read_bool, read_byte, read_two_byte_integer, read_utf8_string,
    read_variable_byte_integer, write_binary_data, write_bool, write_byte, write_four_byte_integer,
    write_two_byte_integer, write_utf8_string, write_variable_byte_integer, Reader,
};
use sage_mqtt::Error;

#[test]
fn byte_encode() {
    let mut buffer = Vec::new();
    let result = write_byte(0b00101010, &mut buffer);
    assert_eq!(result, 1);
    assert_eq!(buffer, vec![0x2A]);
}

#[test]
fn byte_decode() {
    let mut test_stream = Reader::new(vec![0xAF_u8]);
    let result = read_byte(&mut test_stream).unwrap();
    assert_eq!(result, 0xAF);
}

#[test]
fn decode_eof() {
    let mut test_stream = Reader::new(Vec::new());
    let result = read_byte(&mut test_stream);
    if let Some(Error::UnexpectedEndOfStream) = result.err() {
    } else {
        panic!("Should be IO Error");
    }
}

#[test]
fn encode_true() {
    let mut buffer = Vec::new();
    let result = write_bool(true, &mut buffer);
    assert_eq!(result, 1);
    assert_eq!(buffer, vec![0x01]);
}

#[test]
fn encode_false() {
    let mut buffer = Vec::new();
    let result = write_bool(false, &mut buffer);
    assert_eq!(result, 1);
    assert_eq!(buffer, vec![0x00]);
}

#[test]
fn decode_true() {
    let mut test_stream = Reader::new(vec![0x01_u8]);
    let result = read_bool(&mut test_stream).unwrap();
    assert_eq!(result, true);
}

#[test]
fn decode_false() {
    let mut test_stream = Reader::new(vec![0x00_u8]);
    let result = read_bool(&mut test_stream).unwrap();
    assert_eq!(result, false);
}

#[test]
fn decode_bool_invalid_byte() {
    let mut test_stream = Reader::new(vec![0x02_u8]);
    assert_eq!(read_bool(&mut test_stream), Err(Error::ProtocolError));
}

#[test]
fn two_byte_integer_exact_bytes() {
    let mut buffer = Vec::new();
    assert_eq!(write_two_byte_integer(1337, &mut buffer), 2);
    assert_eq!(buffer, vec![0x05, 0x39]);
    let mut reader = Reader::new(buffer);
    assert_eq!(read_two_byte_integer(&mut reader).unwrap(), 1337);
}

#[test]
fn four_byte_integer_exact_bytes() {
    let mut buffer = Vec::new();
    assert_eq!(write_four_byte_integer(220_000_000, &mut buffer), 4);
    assert_eq!(buffer, vec![0x0D, 0x1C, 0xEF, 0x00]);
}

#[test]
fn variable_byte_integer_boundaries() {
    for (value, expected_len) in [
        (0u32, 1usize),
        (127, 1),
        (128, 2),
        (16_383, 2),
        (16_384, 3),
        (2_097_151, 3),
        (2_097_152, 4),
        (268_435_455, 4),
    ] {
        let mut buffer = Vec::new();
        let n = write_variable_byte_integer(value, &mut buffer).unwrap();
        assert_eq!(n, expected_len);
        assert_eq!(buffer.len(), expected_len);
        let mut reader = Reader::new(buffer);
        assert_eq!(read_variable_byte_integer(&mut reader).unwrap(), value);
    }
}

#[test]
fn variable_byte_integer_overflow_encode() {
    let mut buffer = Vec::new();
    assert_eq!(
        write_variable_byte_integer(268_435_456, &mut buffer),
        Err(Error::ProtocolError)
    );
    assert!(buffer.is_empty());
}

#[test]
fn variable_byte_integer_fifth_byte_decode() {
    let mut reader = Reader::new(vec![0x80, 0x80, 0x80, 0x80, 0x01]);
    assert_eq!(
        read_variable_byte_integer(&mut reader),
        Err(Error::ProtocolError)
    );
}

#[test]
fn variable_byte_integer_exact_bytes() {
    let mut buffer = Vec::new();
    write_variable_byte_integer(16_384, &mut buffer).unwrap();
    assert_eq!(buffer, vec![0x80, 0x80, 0x01]);
}

#[test]
fn utf8_string_round_trip() {
    let mut buffer = Vec::new();
    let n = write_utf8_string("Mogwaï", &mut buffer).unwrap();
    assert_eq!(n, 9);
    assert_eq!(buffer, vec![0, 7, 77, 111, 103, 119, 97, 195, 175]);
    let mut reader = Reader::new(buffer);
    assert_eq!(read_utf8_string(&mut reader).unwrap(), "Mogwaï");
}

#[test]
fn utf8_string_invalid_bytes() {
    let mut reader = Reader::new(vec![0, 2, 0xC3, 0x28]);
    assert_eq!(read_utf8_string(&mut reader), Err(Error::ProtocolError));
}

#[test]
fn utf8_string_truncated() {
    let mut reader = Reader::new(vec![0, 5, 97, 98]);
    assert_eq!(
        read_utf8_string(&mut reader),
        Err(Error::UnexpectedEndOfStream)
    );
}

#[test]
fn binary_data_round_trip() {
    let data = vec![0x0D, 0x15, 0xEA, 0x5E];
    let mut buffer = Vec::new();
    let n = write_binary_data(&data, &mut buffer).unwrap();
    assert_eq!(n, 6);
    assert_eq!(buffer, vec![0, 4, 0x0D, 0x15, 0xEA, 0x5E]);
    let mut reader = Reader::new(buffer);
    assert_eq!(read_binary_data(&mut reader).unwrap(), data);
}
