use pollux::data_frame::{DataFrameError, Opcode, ReadFrom};
use pollux::frame_reader::{ChannelFrameReader, FrameReadError, SocketFrameReader};
use pollux::transport::TransportError;

const MASKED_HELLO: [u8; 11] = [0x81, 0x85, 0x37, 0xfa, 0x21, 0x3d, 0x7f, 0x9f, 0x4d, 0x51, 0x58];

#[test]
fn socket_reader_asks_for_the_header_then_the_payload() {
    let mut reader = SocketFrameReader::new();
    assert_eq!(reader.missing(), Ok(2));
    assert!(matches!(reader.accept(&MASKED_HELLO[..2]), Ok(None)));
    assert_eq!(reader.missing(), Ok(4));
    assert!(matches!(reader.accept(&MASKED_HELLO[2..6]), Ok(None)));
    assert_eq!(reader.missing(), Ok(5));
    let frame = reader.accept(&MASKED_HELLO[6..]).unwrap().unwrap();
    assert_eq!(frame.opcode, Opcode::TextFrame);
    assert_eq!(frame.read_from, ReadFrom::Socket);
    assert_eq!(frame.mask_key, [0x37, 0xfa, 0x21, 0x3d]);
    assert_eq!(frame.raw_bytes, MASKED_HELLO[..6].to_vec());
    assert_eq!(frame.payload_data, MASKED_HELLO[6..].to_vec());
    assert_eq!(reader.missing(), Ok(2));
}

#[test]
fn socket_reader_takes_reads_of_any_size() {
    let mut reader = SocketFrameReader::new();
    for byte in &MASKED_HELLO[..10] {
        assert!(matches!(reader.accept(&[*byte]), Ok(None)));
    }
    let frame = reader.accept(&MASKED_HELLO[10..]).unwrap().unwrap();
    assert_eq!(frame.payload_length, 5);
    assert_eq!(frame.payload_data.len(), 5);
}

#[test]
fn socket_reader_hands_over_a_frame_without_payload_at_once() {
    let mut reader = SocketFrameReader::new();
    let frame = reader.accept(&[0x88, 0]).unwrap().unwrap();
    assert_eq!(frame.opcode, Opcode::ConnectionClose);
    assert!(frame.payload_data.is_empty());
    assert!(matches!(reader.accept(&[0x89]), Ok(None)));
    assert_eq!(reader.missing(), Ok(1));
}

#[test]
fn socket_reader_reads_extended_lengths() {
    let mut reader = SocketFrameReader::new();
    assert!(matches!(reader.accept(&[0x82, 126]), Ok(None)));
    assert_eq!(reader.missing(), Ok(2));
    assert!(matches!(reader.accept(&[1, 0]), Ok(None)));
    assert_eq!(reader.missing(), Ok(256));
    let frame = reader.accept(&[5; 256]).unwrap().unwrap();
    assert_eq!(frame.payload_length, 256);
    assert_eq!(frame.payload_data, vec![5; 256]);
}

#[test]
fn socket_reader_surfaces_a_closed_connection() {
    let mut reader = SocketFrameReader::new();
    assert_eq!(
        reader.accept(&[]).err(),
        Some(FrameReadError::Transport(TransportError::Closed))
    );
    assert!(matches!(reader.accept(&[0x81]), Ok(None)));
    assert_eq!(
        reader.accept(&[]).err(),
        Some(FrameReadError::Transport(TransportError::Closed))
    );
    assert_eq!(
        reader.accept(&[1, 2]).err(),
        Some(FrameReadError::Transport(TransportError::Overrun))
    );
    assert_eq!(reader.missing(), Ok(1));
}

#[test]
fn socket_reader_refuses_the_reserved_length_bit() {
    let mut reader = SocketFrameReader::new();
    assert!(matches!(reader.accept(&[0x82, 127]), Ok(None)));
    assert_eq!(reader.missing(), Ok(8));
    assert_eq!(
        reader.accept(&[0x80, 0, 0, 0, 0, 0, 0, 1]).err(),
        Some(FrameReadError::Frame(DataFrameError::ReservedLengthBit))
    );
    assert_eq!(reader.missing(), Err(DataFrameError::ReservedLengthBit));
    assert_eq!(
        reader.accept(&[1]).err(),
        Some(FrameReadError::Frame(DataFrameError::ReservedLengthBit))
    );
}

#[test]
fn channel_reader_takes_a_header_block_and_a_payload_block() {
    let mut reader = ChannelFrameReader::new();
    assert!(!reader.awaits_payload());
    assert!(matches!(reader.accept_block(vec![0x81, 2]), Ok(None)));
    assert!(reader.awaits_payload());
    let frame = reader.accept_block(b"hi".to_vec()).unwrap().unwrap();
    assert!(!reader.awaits_payload());
    assert_eq!(frame.opcode, Opcode::TextFrame);
    assert_eq!(frame.read_from, ReadFrom::Channel);
    assert_eq!(frame.raw_bytes, vec![0x81, 2]);
    assert_eq!(frame.payload_data, b"hi".to_vec());
    assert!(matches!(reader.accept_block(vec![0x82, 0]), Ok(None)));
    let frame = reader.accept_block(Vec::new()).unwrap().unwrap();
    assert_eq!(frame.opcode, Opcode::BinaryFrame);
}

#[test]
fn channel_reader_expects_blocks_of_the_right_length() {
    let mut reader = ChannelFrameReader::new();
    assert_eq!(
        reader.accept_block(vec![0x81, 2, b'h', b'i']).err(),
        Some(FrameReadError::Transport(TransportError::BlockLength))
    );
    assert_eq!(
        reader.accept_block(vec![0x81]).err(),
        Some(FrameReadError::Frame(DataFrameError::IncompleteHeader))
    );
    assert!(!reader.awaits_payload());
    assert!(matches!(reader.accept_block(vec![0x81, 2]), Ok(None)));
    assert_eq!(
        reader.accept_block(b"hi!".to_vec()).err(),
        Some(FrameReadError::Transport(TransportError::BlockLength))
    );
    assert!(!reader.awaits_payload());
}
