use server_framework::byte_order::{u64_from_be_bytes, u64_to_be_bytes};
use server_framework::stream_handling::{convert_to_byte_message as convert_with_size_header, decode_first_u64, ReadError};
use server_framework::stream_serialization::{
    convert_to_byte_message, decode_frame, decode_frame_header, encode_frame, FrameError,
    FRAME_HEADER_LEN,
};

#[test]
fn be_bytes_of_u64_are_most_significant_first() {
    assert_eq!(u64_to_be_bytes(0x0102_0304_0506_0708), vec![1, 2, 3, 4, 5, 6, 7, 8]);
    assert_eq!(u64_to_be_bytes(0), vec![0; 8]);
    assert_eq!(u64_to_be_bytes(u64::MAX), vec![0xff; 8]);
}

#[test]
fn be_bytes_read_back() {
    for v in [0u64, 1, 255, 256, 0xdead_beef, u64::MAX] {
        assert_eq!(u64_from_be_bytes(&u64_to_be_bytes(v)), v);
        assert_eq!(u64_to_be_bytes(v), v.to_be_bytes().to_vec());
    }
    assert_eq!(u64_from_be_bytes(&[0, 0, 0, 0, 0, 0, 1, 0, 99]), 256);
}

#[test]
fn frame_is_header_then_payload() {
    assert_eq!(encode_frame(b"hi"), vec![0, 0, 0, 0, 0, 0, 0, 2, b'h', b'i']);
    assert_eq!(encode_frame(b""), vec![0; 8]);
    assert_eq!(FRAME_HEADER_LEN, 8);
}

#[test]
fn byte_message_carries_its_size() {
    let message = convert_to_byte_message(vec![5, 6, 7]);
    assert_eq!(message.size, 3);
    assert_eq!(message.data, vec![5, 6, 7]);
    assert_eq!(message.into_frame(), vec![0, 0, 0, 0, 0, 0, 0, 3, 5, 6, 7]);
}

#[test]
fn frame_matches_tokio_write_u64_layout() {
    let payload: Vec<u8> = (0..300u32).map(|i| (i % 251) as u8).collect();
    let mut expected = (payload.len() as u64).to_be_bytes().to_vec();
    expected.extend_from_slice(&payload);
    assert_eq!(encode_frame(&payload), expected);
}

#[test]
fn decode_gives_back_payload_and_length() {
    let mut stream = encode_frame(b"abc");
    stream.extend_from_slice(b"trailing");
    assert_eq!(decode_frame(&stream), Ok((b"abc".to_vec(), 11)));
}

#[test]
fn consecutive_frames_decode_in_turn() {
    let mut stream = encode_frame(b"first");
    stream.extend_from_slice(&encode_frame(b"second message"));
    let (one, used) = decode_frame(&stream).unwrap();
    assert_eq!(one, b"first".to_vec());
    let (two, used_two) = decode_frame(&stream[used..]).unwrap();
    assert_eq!(two, b"second message".to_vec());
    assert_eq!(used + used_two, stream.len());
}

#[test]
fn decode_short_header() {
    assert_eq!(
        decode_frame(&[0, 0, 1]),
        Err(FrameError::IncompleteHeader { available: 3 })
    );
    assert_eq!(decode_frame(&[]), Err(FrameError::IncompleteHeader { available: 0 }));
    assert_eq!(
        decode_frame_header(&[1, 2, 3, 4, 5, 6, 7]),
        Err(FrameError::IncompleteHeader { available: 7 })
    );
}

#[test]
fn decode_short_body() {
    assert_eq!(
        decode_frame(&[0, 0, 0, 0, 0, 0, 0, 5, 1, 2]),
        Err(FrameError::IncompleteBody { announced: 5, available: 2 })
    );
    assert_eq!(
        decode_frame(&[0xff, 0, 0, 0, 0, 0, 0, 0]),
        Err(FrameError::IncompleteBody { announced: 0xff00_0000_0000_0000, available: 0 })
    );
}

#[test]
fn decode_header_reads_big_endian() {
    assert_eq!(decode_frame_header(&[0, 0, 0, 0, 0, 0, 1, 2]), Ok(258));
    assert_eq!(decode_frame_header(&[0, 0, 0, 0, 0, 0, 0, 0, 9]), Ok(0));
}

#[test]
fn size_header_is_bincode_little_endian() {
    let message = convert_with_size_header(vec![9; 258]);
    assert_eq!(message.size, vec![2, 1, 0, 0, 0, 0, 0, 0]);
    assert_eq!(message.size, bincode::serialize(&258u64).unwrap());
    assert_eq!(message.data, vec![9; 258]);
}

#[test]
fn size_header_reads_back() {
    let message = convert_with_size_header(vec![1, 2, 3]);
    assert!(matches!(decode_first_u64(&message.size), Ok(3)));
    assert!(matches!(decode_first_u64(&[1, 0, 0, 0, 0, 0, 0, 1, 5]), Ok(0x0100_0000_0000_0001)));
}

#[test]
fn size_header_too_short() {
    assert!(matches!(
        decode_first_u64(&[1, 2, 3]),
        Err(ReadError::DeserializationError(_))
    ));
}

#[test]
fn read_error_from_conversions() {
    let io = std::io::Error::new(std::io::ErrorKind::UnexpectedEof, "eof");
    assert!(matches!(ReadError::from(io), ReadError::IoError(_)));
    let bad: Result<u64, bincode::Error> = bincode::deserialize(&[1u8]);
    assert!(matches!(ReadError::from(bad.unwrap_err()), ReadError::DeserializationError(_)));
}
