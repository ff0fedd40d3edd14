use pollux::buffer::Buffer;
use pollux::data_frame::{
    create_binary_frame_with_data_length, create_pong_frame, create_text_frame,
    create_text_frame_with_data_length, decode_frame, decode_header, decode_payload,
    encode_header, extension_length, get_default_dataframe, get_payload_length_bits,
    mask_unmask_data, opcode_to_wire, parse_data_to_string, parse_opcode, payload_text,
    remaining_header_length, DataFrameError, Opcode, ReadFrom,
};
use pollux::endian::{push_be, read_be};

fn payload_of(len: usize) -> Vec<u8> {
    (0..len).map(|i| (i % 251) as u8).collect()
}

fn round_trip(opcode: Opcode, len: usize) {
    let code = opcode_to_wire(opcode).unwrap();
    let payload = payload_of(len);
    let mut bytes = encode_header(code, len, true, false);
    bytes.extend_from_slice(&payload);
    let frame = decode_frame(&bytes, ReadFrom::Socket).unwrap();
    assert_eq!(frame.opcode, opcode);
    assert_eq!(frame.payload_data, payload);
    assert_eq!(frame.payload_length, len);
    assert!(frame.is_this_final_frame);
    assert!(!frame.contain_masked_data);
}

#[test]
fn frame_round_trip_at_length_boundaries() {
    let opcodes = [
        Opcode::TextFrame,
        Opcode::BinaryFrame,
        Opcode::Ping,
        Opcode::Pong,
        Opcode::ConnectionClose,
    ];
    for opcode in opcodes {
        for len in [0usize, 1, 125, 126, 127, 65535, 65536] {
            round_trip(opcode, len);
        }
    }
}

#[test]
fn masking_twice_gives_the_payload_back() {
    let key = [0x37u8, 0xfa, 0x21, 0x3d];
    let original = payload_of(1000);
    let mut data = original.clone();
    mask_unmask_data(&mut data, &key);
    assert_ne!(data, original);
    mask_unmask_data(&mut data, &key);
    assert_eq!(data, original);
}

#[test]
fn masking_uses_the_key_byte_of_the_position() {
    let key = [0x37u8, 0xfa, 0x21, 0x3d];
    let mut data = vec![0x7fu8, 0x9f, 0x4d, 0x51, 0x58];
    mask_unmask_data(&mut data, &key);
    assert_eq!(data, vec![0x48u8, 0x65, 0x6c, 0x6c, 0x6f]);
}

#[test]
fn masking_an_empty_payload_does_nothing() {
    let mut data: Vec<u8> = Vec::new();
    mask_unmask_data(&mut data, &[1, 2, 3, 4]);
    assert!(data.is_empty());
}

#[test]
fn length_field_follows_the_payload_length() {
    for len in [0usize, 1, 125] {
        let header = encode_header(1, len, true, false);
        assert_eq!(header.len(), 2);
        assert_eq!((header[1] & 0x7f) as usize, len);
    }
    for len in [126usize, 127, 65535] {
        let header = encode_header(1, len, true, false);
        assert_eq!(header.len(), 4);
        assert_eq!(header[1] & 0x7f, 126);
    }
    for len in [65536usize, 1 << 20] {
        let header = encode_header(1, len, true, false);
        assert_eq!(header.len(), 10);
        assert_eq!(header[1] & 0x7f, 127);
    }
}

#[test]
fn extended_lengths_are_big_endian() {
    assert_eq!(encode_header(2, 0x1234, true, false), vec![0x82, 126, 0x12, 0x34]);
    assert_eq!(
        encode_header(1, 0x0001_0203, true, false),
        vec![0x81, 127, 0, 0, 0, 0, 0, 0x01, 0x02, 0x03]
    );
}

#[test]
fn encode_header_sets_fin_and_mask_bits() {
    assert_eq!(encode_header(9, 3, true, false), vec![0x89, 3]);
    assert_eq!(encode_header(9, 3, false, false), vec![0x09, 3]);
    assert_eq!(encode_header(9, 3, true, true), vec![0x89, 0x83]);
    assert_eq!(encode_header(0xf1, 0, true, false), vec![0x81, 0]);
}

#[test]
fn payload_length_bits_carry_the_mask_bit() {
    assert_eq!(get_payload_length_bits(5, 0), vec![5]);
    assert_eq!(get_payload_length_bits(5, 0x80), vec![0x85]);
    assert_eq!(get_payload_length_bits(126, 0), vec![126, 0, 126]);
    assert_eq!(get_payload_length_bits(65536, 0), vec![127, 0, 0, 0, 0, 0, 1, 0, 0]);
}

#[test]
fn opcodes_are_told_apart_by_equality() {
    assert_eq!(parse_opcode(0), Opcode::ContinuationFrame);
    assert_eq!(parse_opcode(1), Opcode::TextFrame);
    assert_eq!(parse_opcode(2), Opcode::BinaryFrame);
    assert_eq!(parse_opcode(8), Opcode::ConnectionClose);
    assert_eq!(parse_opcode(9), Opcode::Ping);
    assert_eq!(parse_opcode(10), Opcode::Pong);
    for other in [3u8, 4, 5, 6, 7, 11, 12, 13, 14, 15, 16, 255] {
        assert_eq!(parse_opcode(other), Opcode::NoOpcodeFound);
    }
}

#[test]
fn opcode_wire_values() {
    assert_eq!(opcode_to_wire(Opcode::ContinuationFrame), Some(0));
    assert_eq!(opcode_to_wire(Opcode::TextFrame), Some(1));
    assert_eq!(opcode_to_wire(Opcode::BinaryFrame), Some(2));
    assert_eq!(opcode_to_wire(Opcode::ConnectionClose), Some(8));
    assert_eq!(opcode_to_wire(Opcode::Ping), Some(9));
    assert_eq!(opcode_to_wire(Opcode::Pong), Some(10));
    assert_eq!(opcode_to_wire(Opcode::NoOpcodeFound), None);
}

#[test]
fn default_dataframe_is_empty() {
    let frame = get_default_dataframe();
    assert_eq!(frame.mask_key, [0u8; 4]);
    assert!(!frame.contain_masked_data);
    assert_eq!(frame.payload_length, 0);
    assert_eq!(frame.payload_length_field, 0);
    assert_eq!(frame.opcode, Opcode::NoOpcodeFound);
    assert!(!frame.is_this_final_frame);
    assert_eq!(frame.read_from, ReadFrom::Socket);
    assert!(frame.raw_bytes.is_empty());
    assert!(frame.payload_data.is_empty());
    assert!(!frame.rs1_bit_set && !frame.rs2_bit_set && !frame.rs3_bit_set);
}

#[test]
fn decode_header_reads_a_masked_text_header() {
    let bytes = [0x81u8, 0x85, 0x37, 0xfa, 0x21, 0x3d, 0x7f, 0x9f, 0x4d, 0x51, 0x58];
    let frame = decode_header(&bytes, ReadFrom::Socket).unwrap();
    assert_eq!(frame.opcode, Opcode::TextFrame);
    assert!(frame.is_this_final_frame);
    assert!(frame.contain_masked_data);
    assert_eq!(frame.mask_key, [0x37, 0xfa, 0x21, 0x3d]);
    assert_eq!(frame.payload_length, 5);
    assert_eq!(frame.payload_length_field, 5);
    assert_eq!(frame.raw_bytes, bytes[..6].to_vec());
    assert!(frame.payload_data.is_empty());
    assert_eq!(frame.read_from, ReadFrom::Socket);
}

#[test]
fn decode_header_reads_reserved_bits() {
    let frame = decode_header(&[0x40u8 | 0x02, 0], ReadFrom::Channel).unwrap();
    assert!(frame.rs1_bit_set && !frame.rs2_bit_set && !frame.rs3_bit_set);
    assert!(!frame.is_this_final_frame);
    assert_eq!(frame.opcode, Opcode::BinaryFrame);
    assert_eq!(frame.read_from, ReadFrom::Channel);
    let frame = decode_header(&[0xb0u8, 0], ReadFrom::Socket).unwrap();
    assert!(!frame.rs1_bit_set && frame.rs2_bit_set && frame.rs3_bit_set);
    assert_eq!(frame.opcode, Opcode::ContinuationFrame);
}

#[test]
fn decode_header_reads_extended_lengths() {
    let frame = decode_header(&[0x82u8, 126, 0x01, 0x00], ReadFrom::Socket).unwrap();
    assert_eq!(frame.payload_length, 256);
    assert_eq!(frame.payload_length_field, 126);
    assert_eq!(frame.raw_bytes.len(), 4);
    let frame =
        decode_header(&[0x82u8, 127, 0, 0, 0, 0, 0, 1, 0, 0], ReadFrom::Socket).unwrap();
    assert_eq!(frame.payload_length, 65536);
    assert_eq!(frame.raw_bytes.len(), 10);
    let frame = decode_header(
        &[0x82u8, 0xff, 0, 0, 0, 0, 0, 1, 0, 2, 9, 8, 7, 6],
        ReadFrom::Socket,
    )
    .unwrap();
    assert_eq!(frame.payload_length, 65538);
    assert_eq!(frame.mask_key, [9, 8, 7, 6]);
    assert_eq!(frame.raw_bytes.len(), 14);
}

#[test]
fn decode_header_fails_on_too_few_bytes() {
    assert_eq!(decode_header(&[], ReadFrom::Socket).err(), Some(DataFrameError::IncompleteHeader));
    assert_eq!(
        decode_header(&[0x81], ReadFrom::Socket).err(),
        Some(DataFrameError::IncompleteHeader)
    );
    assert_eq!(
        decode_header(&[0x81, 126, 0], ReadFrom::Socket).err(),
        Some(DataFrameError::IncompleteHeader)
    );
    assert_eq!(
        decode_header(&[0x81, 0x81, 1, 2, 3], ReadFrom::Socket).err(),
        Some(DataFrameError::IncompleteHeader)
    );
}

#[test]
fn decode_header_refuses_the_reserved_length_bit() {
    let bytes = [0x82u8, 127, 0x80, 0, 0, 0, 0, 0, 0, 1];
    assert_eq!(
        decode_header(&bytes, ReadFrom::Socket).err(),
        Some(DataFrameError::ReservedLengthBit)
    );
}

#[test]
fn decode_frame_fails_on_a_short_payload() {
    assert_eq!(
        decode_frame(&[0x81u8, 3, b'a', b'b'], ReadFrom::Socket).err(),
        Some(DataFrameError::IncompletePayload)
    );
}

#[test]
fn decode_frame_does_not_unmask() {
    let bytes = [0x81u8, 0x85, 0x37, 0xfa, 0x21, 0x3d, 0x7f, 0x9f, 0x4d, 0x51, 0x58];
    let frame = decode_frame(&bytes, ReadFrom::Socket).unwrap();
    assert_eq!(frame.payload_data, vec![0x7f, 0x9f, 0x4d, 0x51, 0x58]);
}

#[test]
fn decode_payload_takes_the_announced_bytes() {
    let bytes = [0x81u8, 2, 10, 20, 30];
    let header = decode_header(&bytes, ReadFrom::Socket).unwrap();
    assert_eq!(decode_payload(&bytes, 2, &header), Ok(vec![10, 20]));
    assert_eq!(decode_payload(&bytes, 4, &header), Err(DataFrameError::IncompletePayload));
    assert_eq!(decode_payload(&bytes, 9, &header), Err(DataFrameError::IncompletePayload));
}

#[test]
fn header_lengths_after_the_first_two_bytes() {
    assert_eq!(remaining_header_length(5), 0);
    assert_eq!(remaining_header_length(0x85), 4);
    assert_eq!(remaining_header_length(126), 2);
    assert_eq!(remaining_header_length(0x80 | 126), 6);
    assert_eq!(remaining_header_length(127), 8);
    assert_eq!(remaining_header_length(0xff), 12);
    assert_eq!(extension_length(125), 0);
    assert_eq!(extension_length(126), 2);
    assert_eq!(extension_length(127), 8);
}

#[test]
fn server_frames_are_final_and_unmasked() {
    assert_eq!(create_pong_frame(3), vec![0x8a, 3]);
    assert_eq!(create_text_frame_with_data_length(3), vec![0x81, 3]);
    assert_eq!(create_binary_frame_with_data_length(300), vec![0x82, 126, 1, 44]);
    assert_eq!(create_text_frame(b"hi"), vec![0x81, 2, b'h', b'i']);
    assert_eq!(create_text_frame(b""), vec![0x81, 0]);
}

#[test]
fn parse_data_to_string_unmasks_a_masked_payload() {
    let bytes = [0x81u8, 0x85, 0x37, 0xfa, 0x21, 0x3d];
    let header = decode_header(&bytes, ReadFrom::Socket).unwrap();
    let mut data = vec![0x7fu8, 0x9f, 0x4d, 0x51, 0x58];
    assert_eq!(parse_data_to_string(&header, &mut data), "Hello");
    assert_eq!(data, b"Hello".to_vec());
}

#[test]
fn parse_data_to_string_leaves_an_unmasked_payload() {
    let header = decode_header(&[0x81u8, 5], ReadFrom::Channel).unwrap();
    let mut data = b"Hello".to_vec();
    assert_eq!(parse_data_to_string(&header, &mut data), "Hello");
    assert_eq!(data, b"Hello".to_vec());
}

#[test]
fn payload_text_refuses_what_is_no_text() {
    let header = decode_header(&[0x82u8, 2], ReadFrom::Channel).unwrap();
    let mut data = vec![0xffu8, 0xfe];
    assert_eq!(payload_text(&header, &mut data), None);
    let mut data = "grüße".as_bytes().to_vec();
    assert_eq!(payload_text(&header, &mut data), Some("grüße".to_string()));
}

#[test]
fn big_endian_numbers() {
    let mut out = vec![7u8];
    push_be(&mut out, 0x0102, 2);
    assert_eq!(out, vec![7, 1, 2]);
    push_be(&mut out, 0x0102, 1);
    assert_eq!(out, vec![7, 1, 2, 2]);
    push_be(&mut out, 5, 0);
    assert_eq!(out, vec![7, 1, 2, 2]);
    assert_eq!(read_be(&[9, 1, 2, 3], 1, 2), 0x0102);
    assert_eq!(read_be(&[9, 1, 2, 3], 1, 0), 0);
    assert_eq!(read_be(&[0xff; 8], 0, 8), u64::MAX);
}

#[test]
fn buffer_appends_up_to_its_capacity() {
    let mut buffer = Buffer::new(3);
    assert_eq!(buffer.append_byte(1), Ok(()));
    assert_eq!(buffer.append_byte(2), Ok(()));
    assert_eq!(buffer.append_byte(3), Ok(()));
    assert_eq!(buffer.append_byte(4), Err("Not enough space in buffer"));
    assert_eq!(buffer.get_arr(), vec![1, 2, 3]);
}

#[test]
fn buffer_starts_empty() {
    assert_eq!(Buffer::new(8).get_arr(), Vec::<u8>::new());
    assert_eq!(Buffer::new_unbound().get_arr(), Vec::<u8>::new());
    assert_eq!(Buffer::new(0).append_byte(1), Err("Not enough space in buffer"));
}

#[test]
fn buffer_tells_an_exact_fill() {
    let mut buffer = Buffer::new(4);
    assert!(buffer.can_array_be_appended(4));
    assert!(!buffer.can_array_be_appended(3));
    assert!(!buffer.can_array_be_appended(5));
    buffer.append_byte(9).unwrap();
    assert!(buffer.can_array_be_appended(3));
    assert!(!buffer.can_array_be_appended(usize::MAX));
}

#[test]
fn buffer_refuses_an_array_that_fills_it_exactly() {
    let mut buffer = Buffer::new(4);
    assert_eq!(buffer.append_u8_array(&[1, 2, 3, 4]), Err("Not enough space in buffer"));
    assert_eq!(buffer.append_u8_array(&[1, 2, 3]), Ok(()));
    assert_eq!(buffer.get_arr(), vec![1, 2, 3]);
}

#[test]
fn buffer_keeps_what_fits_of_an_array_that_is_too_long() {
    let mut buffer = Buffer::new(2);
    assert_eq!(buffer.append_vec8_array(&vec![1, 2, 3]), Err("Not enough space in buffer"));
    assert_eq!(buffer.get_arr(), vec![1, 2]);
}

#[test]
fn unbound_buffer_takes_arrays() {
    let mut buffer = Buffer::new_unbound();
    assert_eq!(buffer.append_vec8_array(&vec![1, 2, 3]), Ok(()));
    assert_eq!(buffer.append_u8_array(&[4]), Ok(()));
    assert_eq!(buffer.append_u8_array(&[]), Ok(()));
    assert_eq!(buffer.get_arr(), vec![1, 2, 3, 4]);
}
