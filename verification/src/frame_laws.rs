use crate::data_frame::{
    decoded_frame, extension_width, fin_bit, frame_error, header_bytes, header_length,
    lemma_header_bytes_len, lemma_opcode_round_trip, length_field, mask_bit, opcode_value,
    reserved_bit_set, stated_length, wire_length_field, wire_masked, Opcode, ReadFrom,
    BINARY_OPCODE, INITIAL_PAYLOAD_LENGTH_MASK, OPCODE_BITMASK, PONG_OPCODE, TEXT_OPCODE,
};
use crate::endian::{
    be_bytes, lemma_be_bytes_len, lemma_be_round_trip, lemma_pow256_values, pow256,
};
use vstd::prelude::*;

verus! {

/// The first byte of a big-endian number is below 128 exactly when the
/// number is below half of what the width can hold.
pub proof fn lemma_be_bytes_top_bit(value: nat, width: nat)
    requires
        width >= 1,
        value < pow256(width),
    ensures
        be_bytes(value, width).len() == width,
        be_bytes(value, width)[0] < 128 <==> 2 * value < pow256(width),
    decreases width,
{
    lemma_be_bytes_len(value, width);
    lemma_be_bytes_len(value / 256, (width - 1) as nat);
    if width == 1 {
        reveal_with_fuel(be_bytes, 2);
        reveal_with_fuel(pow256, 2);
    } else {
        lemma_be_bytes_top_bit(value / 256, (width - 1) as nat);
        assert(pow256((width - 1) as nat) == 256 * pow256((width - 2) as nat));
        assert(be_bytes(value, width)[0] == be_bytes(value / 256, (width - 1) as nat)[0]);
    }
}

/// The low seven bits of an encoded header's second byte are the payload
/// length up to 125, 126 for a length that fits sixteen bits, and 127 beyond.
pub proof fn lemma_length_field_selection(first_byte: u8, len: nat, mask: bool)
    ensures
        header_bytes(first_byte, len, mask_bit(mask)).len() >= 2,
        len <= 125 ==> header_bytes(first_byte, len, mask_bit(mask))[1]
            & INITIAL_PAYLOAD_LENGTH_MASK == len,
        126 <= len <= 65535 ==> header_bytes(first_byte, len, mask_bit(mask))[1]
            & INITIAL_PAYLOAD_LENGTH_MASK == 126,
        len >= 65536 ==> header_bytes(first_byte, len, mask_bit(mask))[1]
            & INITIAL_PAYLOAD_LENGTH_MASK == 127,
        wire_masked(header_bytes(first_byte, len, mask_bit(mask))[1]) == mask,
        wire_length_field(header_bytes(first_byte, len, mask_bit(mask))[1]) == length_field(len),
{
    let field: u8 = length_field(len);
    let bit: u8 = mask_bit(mask);
    assert(field <= 127);
    assert((bit | field) & 0x7f == field && ((bit | field) & 0x80 != 0 <==> bit == 0x80)) by (bit_vector)
        requires
            field <= 127,
            bit == 0 || bit == 0x80,
    ;
}

/// The bytes of an encoded header that follow the second byte spell the
/// payload length, and a decoder finds nothing wrong with them as long as
/// the length stays below 2 to the 63.
pub proof fn lemma_encoded_length_decodes(first_byte: u8, len: nat, mask: bool)
    requires
        len < 0x8000_0000_0000_0000,
    ensures
        stated_length(length_field(len), header_bytes(first_byte, len, mask_bit(mask))) == len,
        !reserved_bit_set(length_field(len), header_bytes(first_byte, len, mask_bit(mask))),
{
    let field = length_field(len);
    let width = extension_width(field);
    let header = header_bytes(first_byte, len, mask_bit(mask));
    lemma_pow256_values();
    lemma_be_bytes_len(len, width);
    if width > 0 {
        assert(header.subrange(2, 2 + width as int) =~= be_bytes(len, width));
        lemma_be_round_trip(len, width);
        lemma_be_bytes_top_bit(len, width);
        assert(header[2] == be_bytes(len, width)[0]);
    }
}

/// Decoding an encoded unmasked frame gives back the opcode and the payload,
/// with the length as encoded, FIN as encoded and no mask.
pub proof fn lemma_frame_round_trip(opcode: Opcode, fin: bool, payload: Seq<u8>, read_from: ReadFrom)
    requires
        opcode != Opcode::NoOpcodeFound,
        payload.len() < 0x8000_0000_0000_0000,
        payload.len() <= usize::MAX,
    ensures
        ({
            let code = opcode_value(opcode)->Some_0;
            let bytes = header_bytes(
                fin_bit(fin) | (code & OPCODE_BITMASK),
                payload.len(),
                mask_bit(false),
            ) + payload;
            &&& frame_error(bytes) is None
            &&& decoded_frame(bytes, read_from).opcode == opcode
            &&& decoded_frame(bytes, read_from).payload_data == payload
            &&& decoded_frame(bytes, read_from).payload_length == payload.len()
            &&& decoded_frame(bytes, read_from).is_this_final_frame == fin
            &&& !decoded_frame(bytes, read_from).contain_masked_data
            &&& decoded_frame(bytes, read_from).read_from == read_from
        }),
{
    let code: u8 = opcode_value(opcode)->Some_0;
    let top: u8 = fin_bit(fin);
    let first: u8 = top | (code & OPCODE_BITMASK);
    let len = payload.len();
    let header = header_bytes(first, len, mask_bit(false));
    let bytes = header + payload;
    let field = length_field(len);
    let width = extension_width(field);
    lemma_opcode_round_trip(opcode);
    assert((top | (code & 0x0f)) & 0x0f == code && ((top | (code & 0x0f)) & 0x80 != 0 <==> top
        == 0x80)) by (bit_vector)
        requires
            code < 16,
            top == 0 || top == 0x80,
    ;
    lemma_length_field_selection(first, len, false);
    lemma_encoded_length_decodes(first, len, false);
    lemma_header_bytes_len(first, len, mask_bit(false));
    assert(bytes[0] == first);
    assert(bytes[1] == header[1]);
    assert(header_length(bytes[1]) == header.len());
    if width > 0 {
        assert(bytes.subrange(2, 2 + width as int) =~= header.subrange(2, 2 + width as int));
        assert(bytes[2] == header[2]);
    }
    assert(stated_length(field, bytes) == len);
    assert(bytes.subrange(header.len() as int, (header.len() + len) as int) =~= payload);
    assert(bytes.take(header.len() as int) =~= header);
}

/// The first bytes of the frames that the server makes are those of final
/// frames with the opcodes Text, Binary and Pong.
pub proof fn lemma_server_first_bytes()
    ensures
        fin_bit(true) | (TEXT_OPCODE & OPCODE_BITMASK) == 0x81,
        fin_bit(true) | (BINARY_OPCODE & OPCODE_BITMASK) == 0x82,
        fin_bit(true) | (PONG_OPCODE & OPCODE_BITMASK) == 0x8a,
        mask_bit(false) == 0,
{
    assert(0x80u8 | (1u8 & 0x0f) == 0x81) by (bit_vector);
    assert(0x80u8 | (2u8 & 0x0f) == 0x82) by (bit_vector);
    assert(0x80u8 | (10u8 & 0x0f) == 0x8a) by (bit_vector);
}

} // verus!
