use crate::buffer::Buffer;
use crate::endian::{be_bytes, be_value, lemma_be_bytes_len, push_be, read_be};
use vstd::prelude::*;

verus! {

pub const FIN_BITMASK: u8 = 0b10000000;

pub const RSV1_BITMASK: u8 = 0b01000000;

pub const RSV2_BITMASK: u8 = 0b00100000;

pub const RSV3_BITMASK: u8 = 0b00010000;

pub const OPCODE_BITMASK: u8 = 0b00001111;

pub const WEBSOCKET_MASK_BITMASK: u8 = 0b10000000;

pub const INITIAL_PAYLOAD_LENGTH_MASK: u8 = 0b01111111;

pub const CONTINUATION_OPCODE: u8 = 0;

pub const TEXT_OPCODE: u8 = 1;

pub const BINARY_OPCODE: u8 = 2;

pub const CLOSE_OPCODE: u8 = 8;

pub const PING_OPCODE: u8 = 9;

pub const PONG_OPCODE: u8 = 10;

/// What kind of frame a header announces.
#[derive(Copy, Clone, Debug, PartialEq, Eq, Structural)]
pub enum Opcode {
    ContinuationFrame,
    TextFrame,
    BinaryFrame,
    ConnectionClose,
    Ping,
    Pong,
    NoOpcodeFound,
}

/// Where a frame was read from: the client's socket, or the channel that
/// peer nodes feed.
#[derive(Copy, Clone, Debug, PartialEq, Eq, Structural)]
pub enum ReadFrom {
    Socket,
    Channel,
}

/// Why a frame could not be decoded.
#[derive(Copy, Clone, Debug, PartialEq, Eq, Structural)]
pub enum DataFrameError {
    /// The source holds fewer bytes than the header asks for.
    IncompleteHeader,
    /// The top bit of a 64-bit length is set.
    ReservedLengthBit,
    /// The announced length does not fit this machine's addresses.
    PayloadTooLarge,
    /// The source holds fewer bytes than the announced payload.
    IncompletePayload,
}

/// One frame: the fields of its header, the header's bytes as they were
/// read, and the payload.
#[derive(Debug)]
pub struct DataFrameInfo {
    pub mask_key: [u8; 4],
    pub contain_masked_data: bool,
    pub payload_length: usize,
    pub payload_length_field: u8,
    pub opcode: Opcode,
    pub is_this_final_frame: bool,
    pub read_from: ReadFrom,
    pub raw_bytes: Vec<u8>,
    pub payload_data: Vec<u8>,
    pub rs1_bit_set: bool,
    pub rs2_bit_set: bool,
    pub rs3_bit_set: bool,
}

/// A frame as a mathematical value.
pub struct FrameView {
    pub mask_key: Seq<u8>,
    pub contain_masked_data: bool,
    pub payload_length: nat,
    pub payload_length_field: u8,
    pub opcode: Opcode,
    pub is_this_final_frame: bool,
    pub read_from: ReadFrom,
    pub raw_bytes: Seq<u8>,
    pub payload_data: Seq<u8>,
    pub rs1_bit_set: bool,
    pub rs2_bit_set: bool,
    pub rs3_bit_set: bool,
}

impl View for DataFrameInfo {
    type V = FrameView;

    open spec fn view(&self) -> FrameView {
        FrameView {
            mask_key: self.mask_key@,
            contain_masked_data: self.contain_masked_data,
            payload_length: self.payload_length as nat,
            payload_length_field: self.payload_length_field,
            opcode: self.opcode,
            is_this_final_frame: self.is_this_final_frame,
            read_from: self.read_from,
            raw_bytes: self.raw_bytes@,
            payload_data: self.payload_data@,
            rs1_bit_set: self.rs1_bit_set,
            rs2_bit_set: self.rs2_bit_set,
            rs3_bit_set: self.rs3_bit_set,
        }
    }
}

/// The frame that holds nothing yet.
pub open spec fn default_frame() -> FrameView {
    FrameView {
        mask_key: seq![0u8, 0u8, 0u8, 0u8],
        contain_masked_data: false,
        payload_length: 0,
        payload_length_field: 0,
        opcode: Opcode::NoOpcodeFound,
        is_this_final_frame: false,
        read_from: ReadFrom::Socket,
        raw_bytes: Seq::empty(),
        payload_data: Seq::empty(),
        rs1_bit_set: false,
        rs2_bit_set: false,
        rs3_bit_set: false,
    }
}

pub fn get_default_dataframe() -> (frame: DataFrameInfo)
    ensures
        frame@ == default_frame(),
{
    let frame = DataFrameInfo {
        mask_key: [0;4],
        contain_masked_data: false,
        payload_length: 0,
        payload_length_field: 0,
        opcode: Opcode::NoOpcodeFound,
        is_this_final_frame: false,
        read_from: ReadFrom::Socket,
        raw_bytes: Vec::new(),
        payload_data: Vec::new(),
        rs1_bit_set: false,
        rs2_bit_set: false,
        rs3_bit_set: false,
    };
    assert(frame.mask_key@ =~= seq![0u8, 0u8, 0u8, 0u8]);
    frame
}

/// The opcode that a four-bit wire value stands for. A value stands for an
/// opcode only if it is equal to the opcode's number.
pub open spec fn opcode_of(value: u8) -> Opcode {
    if value == CONTINUATION_OPCODE {
        Opcode::ContinuationFrame
    } else if value == TEXT_OPCODE {
        Opcode::TextFrame
    } else if value == BINARY_OPCODE {
        Opcode::BinaryFrame
    } else if value == CLOSE_OPCODE {
        Opcode::ConnectionClose
    } else if value == PING_OPCODE {
        Opcode::Ping
    } else if value == PONG_OPCODE {
        Opcode::Pong
    } else {
        Opcode::NoOpcodeFound
    }
}

/// The wire value of an opcode, where it has one.
pub open spec fn opcode_value(opcode: Opcode) -> Option<u8> {
    match opcode {
        Opcode::ContinuationFrame => Some(CONTINUATION_OPCODE),
        Opcode::TextFrame => Some(TEXT_OPCODE),
        Opcode::BinaryFrame => Some(BINARY_OPCODE),
        Opcode::ConnectionClose => Some(CLOSE_OPCODE),
        Opcode::Ping => Some(PING_OPCODE),
        Opcode::Pong => Some(PONG_OPCODE),
        Opcode::NoOpcodeFound => None,
    }
}

pub fn parse_opcode(opcode: u8) -> (parsed: Opcode)
    ensures
        parsed == opcode_of(opcode),
{
    if opcode == CONTINUATION_OPCODE {
        Opcode::ContinuationFrame
    } else if opcode == TEXT_OPCODE {
        Opcode::TextFrame
    } else if opcode == BINARY_OPCODE {
        Opcode::BinaryFrame
    } else if opcode == CLOSE_OPCODE {
        Opcode::ConnectionClose
    } else if opcode == PING_OPCODE {
        Opcode::Ping
    } else if opcode == PONG_OPCODE {
        Opcode::Pong
    } else {
        Opcode::NoOpcodeFound
    }
}

/// The wire value of an opcode; none for `NoOpcodeFound`.
pub fn opcode_to_wire(opcode: Opcode) -> (value: Option<u8>)
    ensures
        value == opcode_value(opcode),
{
    match opcode {
        Opcode::ContinuationFrame => Some(CONTINUATION_OPCODE),
        Opcode::TextFrame => Some(TEXT_OPCODE),
        Opcode::BinaryFrame => Some(BINARY_OPCODE),
        Opcode::ConnectionClose => Some(CLOSE_OPCODE),
        Opcode::Ping => Some(PING_OPCODE),
        Opcode::Pong => Some(PONG_OPCODE),
        Opcode::NoOpcodeFound => None,
    }
}

/// An opcode's wire value stands for that opcode, and fits four bits.
pub proof fn lemma_opcode_round_trip(opcode: Opcode)
    requires
        opcode != Opcode::NoOpcodeFound,
    ensures
        opcode_value(opcode) is Some,
        opcode_value(opcode)->Some_0 < 16,
        opcode_of(opcode_value(opcode)->Some_0) == opcode,
{
}

/// The seven-bit length field for a payload of `len` bytes.
pub open spec fn length_field(len: nat) -> u8 {
    if len <= 125 {
        len as u8
    } else if len <= 0xffff {
        126
    } else {
        127
    }
}

/// How many bytes of extended length follow a length field.
pub open spec fn extension_width(field: u8) -> nat {
    if field == 126 {
        2
    } else if field == 127 {
        8
    } else {
        0
    }
}

/// The length part of a header: the byte that carries the mask bit and the
/// length field, then the extended length, most significant byte first.
pub open spec fn length_bytes(len: nat, masked_bit: u8) -> Seq<u8> {
    seq![masked_bit | length_field(len)] + be_bytes(len, extension_width(length_field(len)))
}

/// A whole frame header without a masking key.
pub open spec fn header_bytes(first_byte: u8, len: nat, masked_bit: u8) -> Seq<u8> {
    seq![first_byte] + length_bytes(len, masked_bit)
}

pub fn get_payload_length_bits(data_len: usize, masked_bit: u8) -> (bits: Vec<u8>)
    ensures
        bits@ == length_bytes(data_len as nat, masked_bit),
{
    let mut bits: Vec<u8> = Vec::new();
    if data_len <= 125 {
        bits.push(masked_bit | (data_len as u8));
    } else if data_len <= 0xffff {
        bits.push(masked_bit | 126);
        push_be(&mut bits, data_len as u64, 2);
    } else {
        bits.push(masked_bit | 127);
        push_be(&mut bits, data_len as u64, 8);
    }
    proof {
        reveal_with_fuel(be_bytes, 1);
        assert(bits@ =~= length_bytes(data_len as nat, masked_bit));
    }
    bits
}

/// The first header byte's top bit for a frame that is, or is not, the last
/// of its message.
pub open spec fn fin_bit(fin: bool) -> u8 {
    if fin {
        FIN_BITMASK
    } else {
        0
    }
}

/// The second header byte's top bit for a payload that is, or is not, masked.
pub open spec fn mask_bit(mask: bool) -> u8 {
    if mask {
        WEBSOCKET_MASK_BITMASK
    } else {
        0
    }
}

/// The header of a frame: the byte with the FIN bit and the low four bits of
/// `opcode`, then the length part. No masking key is written.
pub fn encode_header(opcode: u8, payload_len: usize, fin: bool, mask: bool) -> (header: Vec<u8>)
    ensures
        header@ == header_bytes(
            fin_bit(fin) | (opcode & OPCODE_BITMASK),
            payload_len as nat,
            mask_bit(mask),
        ),
{
    let first: u8 = (if fin {
        FIN_BITMASK
    } else {
        0
    }) | (opcode & OPCODE_BITMASK);
    let masked_bit: u8 = if mask {
        WEBSOCKET_MASK_BITMASK
    } else {
        0
    };
    let mut header: Vec<u8> = Vec::new();
    header.push(first);
    let mut bits = get_payload_length_bits(payload_len, masked_bit);
    header.append(&mut bits);
    assert(header@ =~= header_bytes(first, payload_len as nat, masked_bit));
    header
}

/// A header is at most ten bytes long when it carries no masking key.
pub proof fn lemma_header_bytes_len(first_byte: u8, len: nat, masked_bit: u8)
    ensures
        header_bytes(first_byte, len, masked_bit).len() == 2 + extension_width(length_field(len)),
        header_bytes(first_byte, len, masked_bit).len() <= 10,
{
    lemma_be_bytes_len(len, extension_width(length_field(len)));
}

/// The header that a buffer-built frame starts with: FIN set, the given
/// opcode byte, no mask.
fn build_header(first_byte: u8, data_len: usize) -> (buffer: Box<Buffer<u8>>)
    ensures
        buffer.wf(),
        buffer.capacity() == usize::MAX,
        buffer@ == header_bytes(first_byte, data_len as nat, 0),
{
    let mut buffer = Buffer::new_unbound();
    let masked_bit: u8 = 0;
    let _ = buffer.append_byte(first_byte);
    let bits = get_payload_length_bits(data_len, masked_bit);
    proof {
        lemma_header_bytes_len(first_byte, data_len as nat, masked_bit);
    }
    let _ = buffer.append_vec8_array(&bits);
    assert(buffer@ =~= header_bytes(first_byte, data_len as nat, 0));
    buffer
}

/// The header of an unmasked final Pong frame for a payload of `data_len`
/// bytes.
pub fn create_pong_frame(data_len: usize) -> (frame: Vec<u8>)
    ensures
        frame@ == header_bytes(0x8a, data_len as nat, 0),
{
    let pong_opcode: u8 = 0b00001010;
    assert(0b10000000u8 | 0b00001010u8 == 0x8a) by (bit_vector);
    build_header(0b10000000 | pong_opcode, data_len).get_arr()
}

/// The header of an unmasked final Text frame for a payload of `data_len`
/// bytes.
pub fn create_text_frame_with_data_length(data_len: usize) -> (frame: Vec<u8>)
    ensures
        frame@ == header_bytes(0x81, data_len as nat, 0),
{
    build_header(0b10000001, data_len).get_arr()
}

/// The header of an unmasked final Binary frame for a payload of `data_len`
/// bytes.
pub fn create_binary_frame_with_data_length(data_len: usize) -> (frame: Vec<u8>)
    ensures
        frame@ == header_bytes(0x82, data_len as nat, 0),
{
    build_header(0b10000010, data_len).get_arr()
}

/// A whole unmasked final Text frame: header, then the payload as it is.
pub fn create_text_frame(data: &[u8]) -> (frame: Vec<u8>)
    requires
        data@.len() + 10 < usize::MAX,
    ensures
        frame@ == header_bytes(0x81, data@.len(), 0) + data@,
{
    let text_opcode: u8 = 0b00000001;
    assert(0b10000000u8 | 0b00000001u8 == 0x81) by (bit_vector);
    let mut text_frame = build_header(0b10000000 | text_opcode, data.len());
    proof {
        lemma_header_bytes_len(0x81, data@.len(), 0);
    }
    let _ = text_frame.append_u8_array(data);
    text_frame.get_arr()
}

/// The masking transform on one byte: the byte XOR the key byte that its
/// position selects.
pub open spec fn masked_byte(byte: u8, key: Seq<u8>, position: int) -> u8
    recommends
        key.len() == 4,
{
    byte ^ key[position % 4]
}

/// The masking transform on a whole payload.
pub open spec fn masked(data: Seq<u8>, key: Seq<u8>) -> Seq<u8> {
    Seq::new(data.len(), |i: int| masked_byte(data[i], key, i))
}

/// Applies the masking transform in place. Masking and unmasking are the
/// same operation.
pub fn mask_unmask_data(data: &mut [u8], mask_key: &[u8; 4])
    ensures
        final(data)@ == masked(old(data)@, mask_key@),
{
    let n: usize = data.len();
    let mut i: usize = 0;
    while i < n
        invariant
            n == data@.len(),
            n == old(data)@.len(),
            i <= n,
            forall|k: int| 0 <= k < i ==> data@[k] == masked_byte(old(data)@[k], mask_key@, k),
            forall|k: int| i <= k < n ==> data@[k] == old(data)@[k],
        decreases n - i,
    {
        let j: usize = i % 4;
        data[i] = data[i] ^ mask_key[j];
        i += 1;
    }
}

/// Masking twice with the same key gives the payload back.
pub proof fn lemma_masking_involution(data: Seq<u8>, key: Seq<u8>)
    requires
        key.len() == 4,
    ensures
        masked(masked(data, key), key) == data,
{
    assert forall|i: int| 0 <= i < data.len() implies masked(masked(data, key), key)[i]
        == data[i] by {
        let b: u8 = data[i];
        let k: u8 = key[i % 4];
        assert((b ^ k) ^ k == b) by (bit_vector);
    }
    assert(masked(masked(data, key), key) =~= data);
}

/// Whether the first header byte marks the last frame of a message.
pub open spec fn wire_fin(first_byte: u8) -> bool {
    first_byte & FIN_BITMASK != 0
}

/// Whether the second header byte announces a masked payload.
pub open spec fn wire_masked(second_byte: u8) -> bool {
    second_byte & WEBSOCKET_MASK_BITMASK != 0
}

/// The seven-bit length field of the second header byte.
pub open spec fn wire_length_field(second_byte: u8) -> u8 {
    second_byte & INITIAL_PAYLOAD_LENGTH_MASK
}

/// How many bytes of masking key follow the length.
pub open spec fn key_width(masked: bool) -> nat {
    if masked {
        4
    } else {
        0
    }
}

/// The length of the whole header that starts with the given second byte.
pub open spec fn header_length(second_byte: u8) -> nat {
    2 + extension_width(wire_length_field(second_byte)) + key_width(wire_masked(second_byte))
}

/// The payload length that a length field and the header bytes state.
pub open spec fn stated_length(field: u8, raw_bytes: Seq<u8>) -> nat {
    if field <= 125 {
        field as nat
    } else if field == 126 || field == 127 {
        be_value(raw_bytes.subrange(2, 2 + extension_width(field) as int))
    } else {
        0
    }
}

/// Whether a 64-bit extended length has its reserved top bit set.
pub open spec fn reserved_bit_set(field: u8, raw_bytes: Seq<u8>) -> bool {
    field == 127 && raw_bytes[2] >= 128
}

/// Why the bytes do not start with a header that can be decoded, if they do
/// not. The checks come in the order in which the header is read.
pub open spec fn header_error(bytes: Seq<u8>) -> Option<DataFrameError> {
    if bytes.len() < 2 {
        Some(DataFrameError::IncompleteHeader)
    } else {
        let field = wire_length_field(bytes[1]);
        if bytes.len() < 2 + extension_width(field) {
            Some(DataFrameError::IncompleteHeader)
        } else if reserved_bit_set(field, bytes) {
            Some(DataFrameError::ReservedLengthBit)
        } else if stated_length(field, bytes) > usize::MAX {
            Some(DataFrameError::PayloadTooLarge)
        } else if bytes.len() < header_length(bytes[1]) {
            Some(DataFrameError::IncompleteHeader)
        } else {
            None
        }
    }
}

/// The frame that a decodable header describes. Its payload is still empty.
pub open spec fn decoded_header(bytes: Seq<u8>, read_from: ReadFrom) -> FrameView {
    let masked = wire_masked(bytes[1]);
    let total = header_length(bytes[1]) as int;
    FrameView {
        mask_key: if masked {
            bytes.subrange(total - 4, total)
        } else {
            seq![0u8, 0u8, 0u8, 0u8]
        },
        contain_masked_data: masked,
        payload_length: stated_length(wire_length_field(bytes[1]), bytes),
        payload_length_field: wire_length_field(bytes[1]),
        opcode: opcode_of(bytes[0] & OPCODE_BITMASK),
        is_this_final_frame: wire_fin(bytes[0]),
        read_from: read_from,
        raw_bytes: bytes.take(total),
        payload_data: Seq::empty(),
        rs1_bit_set: bytes[0] & RSV1_BITMASK != 0,
        rs2_bit_set: bytes[0] & RSV2_BITMASK != 0,
        rs3_bit_set: bytes[0] & RSV3_BITMASK != 0,
    }
}

/// Records the first header byte: FIN, the reserved bits and the opcode.
pub fn process_data_frame_first_byte(data_frame_info: &mut DataFrameInfo, first_byte: u8)
    ensures
        final(data_frame_info)@ == (FrameView {
            is_this_final_frame: wire_fin(first_byte),
            rs1_bit_set: first_byte & RSV1_BITMASK != 0,
            rs2_bit_set: first_byte & RSV2_BITMASK != 0,
            rs3_bit_set: first_byte & RSV3_BITMASK != 0,
            opcode: opcode_of(first_byte & OPCODE_BITMASK),
            raw_bytes: old(data_frame_info)@.raw_bytes.push(first_byte),
            ..old(data_frame_info)@
        }),
{
    data_frame_info.is_this_final_frame = (first_byte & FIN_BITMASK) != 0;
    data_frame_info.raw_bytes.push(first_byte);
    data_frame_info.rs1_bit_set = RSV1_BITMASK & first_byte != 0;
    data_frame_info.rs2_bit_set = RSV2_BITMASK & first_byte != 0;
    data_frame_info.rs3_bit_set = RSV3_BITMASK & first_byte != 0;
    let opcode = OPCODE_BITMASK & first_byte;
    data_frame_info.opcode = parse_opcode(opcode);
    proof {
        assert(RSV1_BITMASK & first_byte == first_byte & RSV1_BITMASK) by (bit_vector);
        assert(RSV2_BITMASK & first_byte == first_byte & RSV2_BITMASK) by (bit_vector);
        assert(RSV3_BITMASK & first_byte == first_byte & RSV3_BITMASK) by (bit_vector);
        assert(OPCODE_BITMASK & first_byte == first_byte & OPCODE_BITMASK) by (bit_vector);
    }
}

/// Records the second header byte: the mask flag and the length field.
pub fn process_data_frame_second_byte(data_frame_info: &mut DataFrameInfo, second_byte: u8)
    ensures
        final(data_frame_info)@ == (FrameView {
            contain_masked_data: wire_masked(second_byte),
            payload_length_field: wire_length_field(second_byte),
            raw_bytes: old(data_frame_info)@.raw_bytes.push(second_byte),
            ..old(data_frame_info)@
        }),
{
    data_frame_info.raw_bytes.push(second_byte);
    let websocket_mask_set = WEBSOCKET_MASK_BITMASK & second_byte != 0;
    data_frame_info.contain_masked_data = websocket_mask_set;
    data_frame_info.payload_length_field = INITIAL_PAYLOAD_LENGTH_MASK & second_byte;
    proof {
        assert(WEBSOCKET_MASK_BITMASK & second_byte == second_byte & WEBSOCKET_MASK_BITMASK)
            by (bit_vector);
        assert(INITIAL_PAYLOAD_LENGTH_MASK & second_byte == second_byte
            & INITIAL_PAYLOAD_LENGTH_MASK) by (bit_vector);
    }
}

/// How many bytes of extended length follow the given length field.
pub fn extension_length(payload_length_field: u8) -> (width: usize)
    ensures
        width == extension_width(payload_length_field),
{
    if payload_length_field == 126 {
        2
    } else if payload_length_field == 127 {
        8
    } else {
        0
    }
}

/// How many header bytes are still to be read after the first two.
pub fn remaining_header_length(second_byte: u8) -> (rest: usize)
    ensures
        rest + 2 == header_length(second_byte),
{
    let key: usize = if WEBSOCKET_MASK_BITMASK & second_byte != 0 {
        4
    } else {
        0
    };
    proof {
        assert(WEBSOCKET_MASK_BITMASK & second_byte == second_byte & WEBSOCKET_MASK_BITMASK)
            by (bit_vector);
        assert(INITIAL_PAYLOAD_LENGTH_MASK & second_byte == second_byte
            & INITIAL_PAYLOAD_LENGTH_MASK) by (bit_vector);
    }
    extension_length(INITIAL_PAYLOAD_LENGTH_MASK & second_byte) + key
}

/// What `calculate_payload_length` answers for a length field and the header
/// bytes read so far.
pub open spec fn length_outcome(field: u8, raw_bytes: Seq<u8>) -> Result<(), DataFrameError> {
    if reserved_bit_set(field, raw_bytes) {
        Err(DataFrameError::ReservedLengthBit)
    } else if stated_length(field, raw_bytes) > usize::MAX {
        Err(DataFrameError::PayloadTooLarge)
    } else {
        Ok(())
    }
}

/// Works out the payload length from the length field and, where the field
/// asks for one, the extended length in the header bytes read so far.
pub fn calculate_payload_length(data_frame_info: &mut DataFrameInfo) -> (res: Result<
    (),
    DataFrameError,
>)
    requires
        old(data_frame_info)@.raw_bytes.len() >= 2 + extension_width(
            old(data_frame_info)@.payload_length_field,
        ),
    ensures
        res == length_outcome(
            old(data_frame_info)@.payload_length_field,
            old(data_frame_info)@.raw_bytes,
        ),
        res is Ok ==> final(data_frame_info)@ == (FrameView {
            payload_length: stated_length(
                old(data_frame_info)@.payload_length_field,
                old(data_frame_info)@.raw_bytes,
            ),
            ..old(data_frame_info)@
        }),
        res is Err ==> final(data_frame_info)@ == old(data_frame_info)@,
{
    let field: u8 = data_frame_info.payload_length_field;
    if field <= 125 {
        data_frame_info.payload_length = field as usize;
        return Ok(());
    }
    let width: usize = extension_length(field);
    if width == 0 {
        data_frame_info.payload_length = 0;
        return Ok(());
    }
    if field == 127 && data_frame_info.raw_bytes[2] >= 128 {
        return Err(DataFrameError::ReservedLengthBit);
    }
    let stated: u64 = read_be(data_frame_info.raw_bytes.as_slice(), 2, width);
    if stated > usize::MAX as u64 {
        return Err(DataFrameError::PayloadTooLarge);
    }
    data_frame_info.payload_length = stated as usize;
    Ok(())
}

/// Takes the masking key from the last four header bytes, where the frame is
/// masked.
pub fn extract_mask_key(data_frame_info: &mut DataFrameInfo)
    requires
        old(data_frame_info)@.contain_masked_data ==> old(data_frame_info)@.raw_bytes.len() >= 4,
    ensures
        final(data_frame_info)@ == (FrameView {
            mask_key: if old(data_frame_info)@.contain_masked_data {
                old(data_frame_info)@.raw_bytes.subrange(
                    old(data_frame_info)@.raw_bytes.len() - 4,
                    old(data_frame_info)@.raw_bytes.len() as int,
                )
            } else {
                old(data_frame_info)@.mask_key
            },
            ..old(data_frame_info)@
        }),
{
    let len: usize = data_frame_info.raw_bytes.len();
    if data_frame_info.contain_masked_data {
        let mask_key: [u8; 4] = [
            data_frame_info.raw_bytes[len - 4],
            data_frame_info.raw_bytes[len - 3],
            data_frame_info.raw_bytes[len - 2],
            data_frame_info.raw_bytes[len - 1],
        ];
        data_frame_info.mask_key = mask_key;
        assert(data_frame_info.mask_key@ =~= old(data_frame_info)@.raw_bytes.subrange(
            len - 4,
            len as int,
        ));
    }
}

/// Appends the bytes of `bytes` from `start` up to `end` to `out`.
fn append_range(out: &mut Vec<u8>, bytes: &[u8], start: usize, end: usize)
    requires
        start <= end <= bytes@.len(),
    ensures
        final(out)@ == old(out)@ + bytes@.subrange(start as int, end as int),
{
    let mut i: usize = start;
    while i < end
        invariant
            start <= i <= end <= bytes@.len(),
            out@ == old(out)@ + bytes@.subrange(start as int, i as int),
        decreases end - i,
    {
        out.push(bytes[i]);
        assert(out@ =~= old(out)@ + bytes@.subrange(start as int, i + 1));
        i += 1;
    }
    assert(out@ =~= old(out)@ + bytes@.subrange(start as int, end as int));
}

/// Decodes the frame header that `bytes` start with. The header's bytes are
/// kept as they were read; what follows the header is not looked at.
pub fn decode_header(bytes: &[u8], read_from: ReadFrom) -> (res: Result<
    DataFrameInfo,
    DataFrameError,
>)
    ensures
        match res {
            Ok(frame) => header_error(bytes@) is None && frame@ == decoded_header(
                bytes@,
                read_from,
            ),
            Err(e) => header_error(bytes@) == Some(e),
        },
{
    if bytes.len() < 2 {
        return Err(DataFrameError::IncompleteHeader);
    }
    let mut frame = get_default_dataframe();
    frame.read_from = read_from;
    process_data_frame_first_byte(&mut frame, bytes[0]);
    process_data_frame_second_byte(&mut frame, bytes[1]);
    let width: usize = extension_length(frame.payload_length_field);
    if bytes.len() < 2 + width {
        return Err(DataFrameError::IncompleteHeader);
    }
    append_range(&mut frame.raw_bytes, bytes, 2, 2 + width);
    assert(frame.raw_bytes@ =~= bytes@.take(2 + width));
    assert(frame.raw_bytes@.subrange(2, 2 + width) =~= bytes@.subrange(2, 2 + width));
    match calculate_payload_length(&mut frame) {
        Ok(()) => {},
        Err(e) => {
            return Err(e);
        },
    }
    let key: usize = if frame.contain_masked_data {
        4
    } else {
        0
    };
    if bytes.len() < 2 + width + key {
        return Err(DataFrameError::IncompleteHeader);
    }
    append_range(&mut frame.raw_bytes, bytes, 2 + width, 2 + width + key);
    assert(frame.raw_bytes@ =~= bytes@.take(2 + width + key));
    extract_mask_key(&mut frame);
    proof {
        let total = header_length(bytes@[1]) as int;
        assert(total == 2 + width + key);
        if frame.contain_masked_data {
            assert(bytes@.take(total).subrange(total - 4, total) =~= bytes@.subrange(
                total - 4,
                total,
            ));
        }
        assert(frame@.raw_bytes =~= decoded_header(bytes@, read_from).raw_bytes);
        assert(frame@.payload_data =~= decoded_header(bytes@, read_from).payload_data);
        assert(frame@.mask_key =~= decoded_header(bytes@, read_from).mask_key);
    }
    Ok(frame)
}

/// Why the bytes do not start with a whole frame, if they do not.
pub open spec fn frame_error(bytes: Seq<u8>) -> Option<DataFrameError> {
    if header_error(bytes) is Some {
        header_error(bytes)
    } else if bytes.len() < header_length(bytes[1]) + stated_length(
        wire_length_field(bytes[1]),
        bytes,
    ) {
        Some(DataFrameError::IncompletePayload)
    } else {
        None
    }
}

/// The frame that `bytes` start with: the decoded header, and as payload the
/// bytes that follow it, as they are.
pub open spec fn decoded_frame(bytes: Seq<u8>, read_from: ReadFrom) -> FrameView {
    let header = decoded_header(bytes, read_from);
    FrameView {
        payload_data: bytes.subrange(
            header.raw_bytes.len() as int,
            (header.raw_bytes.len() + header.payload_length) as int,
        ),
        ..header
    }
}

/// The payload of a decoded header: the `payload_length` bytes of `bytes`
/// from `start` on, as they are. Nothing is unmasked.
pub fn decode_payload(bytes: &[u8], start: usize, header: &DataFrameInfo) -> (res: Result<
    Vec<u8>,
    DataFrameError,
>)
    ensures
        match res {
            Ok(payload) => start + header@.payload_length <= bytes@.len() && payload@
                == bytes@.subrange(start as int, start + header@.payload_length),
            Err(e) => e == DataFrameError::IncompletePayload && start + header@.payload_length
                > bytes@.len(),
        },
{
    let total: usize = bytes.len();
    if start > total || header.payload_length > total - start {
        return Err(DataFrameError::IncompletePayload);
    }
    let mut payload: Vec<u8> = Vec::new();
    append_range(&mut payload, bytes, start, start + header.payload_length);
    Ok(payload)
}

/// Decodes the whole frame that `bytes` start with: header, then payload.
pub fn decode_frame(bytes: &[u8], read_from: ReadFrom) -> (res: Result<
    DataFrameInfo,
    DataFrameError,
>)
    ensures
        match res {
            Ok(frame) => frame_error(bytes@) is None && frame@ == decoded_frame(bytes@, read_from),
            Err(e) => frame_error(bytes@) == Some(e),
        },
{
    let mut frame = match decode_header(bytes, read_from) {
        Ok(frame) => frame,
        Err(e) => {
            return Err(e);
        },
    };
    let start: usize = frame.raw_bytes.len();
    match decode_payload(bytes, start, &frame) {
        Ok(payload) => {
            frame.payload_data = payload;
            Ok(frame)
        },
        Err(e) => Err(e),
    }
}

/// The payload of a frame as the client meant it: unmasked where the frame
/// is masked.
pub open spec fn plain_payload(frame: FrameView, data: Seq<u8>) -> Seq<u8> {
    if frame.contain_masked_data {
        masked(data, frame.mask_key)
    } else {
        data
    }
}

/// Unmasks the payload in place, where the frame is masked, and reads it as
/// text, if it is text.
pub fn payload_text(data_frame_info: &DataFrameInfo, data: &mut [u8]) -> (text: Option<String>)
    ensures
        final(data)@ == plain_payload(data_frame_info@, old(data)@),
        text is Some <==> vstd::utf8::valid_utf8(final(data)@),
        text is Some ==> text->Some_0@ == vstd::utf8::decode_utf8(final(data)@),
{
    if data_frame_info.contain_masked_data {
        mask_unmask_data(data, &data_frame_info.mask_key);
    }
    crate::outside::utf8_text(data)
}

/// Unmasks the payload in place, where the frame is masked, and reads it as
/// text.
pub fn parse_data_to_string(data_frame_info: &DataFrameInfo, data: &mut [u8]) -> (text: String)
    requires
        vstd::utf8::valid_utf8(plain_payload(data_frame_info@, old(data)@)),
    ensures
        final(data)@ == plain_payload(data_frame_info@, old(data)@),
        text@ == vstd::utf8::decode_utf8(final(data)@),
{
    match payload_text(data_frame_info, data) {
        Some(text) => text,
        None => String::new(),
    }
}

} // verus!
