use vstd::prelude::*;
use crate::decimal::{digits_of, lemma_digits_of, push_decimal};
use crate::state::GeneratorState;

verus! {

/// The low 32 bits of the timestamp.
pub open spec fn time_low_of(timestamp: u64) -> u32 {
    (timestamp & 0xFFFF_FFFF) as u32
}

/// Bits 32 through 47 of the timestamp.
pub open spec fn time_mid_of(timestamp: u64) -> u16 {
    ((timestamp >> 32u64) & 0xFFFF) as u16
}

/// Bits 48 through 59 of the timestamp under the version marker `0100`.
pub open spec fn time_hi_and_version_of(timestamp: u64) -> u16 {
    (((timestamp >> 48u64) & 0x0FFF) as u16) | 0x4000u16
}

/// Bits 8 through 13 of the sequence under the variant marker `10`.
pub open spec fn clock_seq_hi_and_reserved_of(sequence: u16) -> u8 {
    (((sequence >> 8u16) & 0x3F) as u8) | 0x80u8
}

/// The low 8 bits of the sequence.
pub open spec fn clock_seq_low_of(sequence: u16) -> u8 {
    (sequence & 0xFF) as u8
}

/// The identifier: the five fields from the most significant bit down,
/// then the node id shifted left by 16 bits and kept to the low 48 bits,
/// below the fields.
pub open spec fn layout(timestamp: u64, sequence: u16, node_id: u64) -> u128 {
    ((time_low_of(timestamp) as u128) << 96u128)
    | ((time_mid_of(timestamp) as u128) << 80u128)
    | ((time_hi_and_version_of(timestamp) as u128) << 64u128)
    | ((clock_seq_hi_and_reserved_of(sequence) as u128) << 56u128)
    | ((clock_seq_low_of(sequence) as u128) << 48u128)
    | (((node_id as u128) << 16u128) & 0xFFFF_FFFF_FFFF)
}

pub fn time_low(timestamp: u64) -> (r: u32)
    ensures
        r == time_low_of(timestamp),
{
    (timestamp & 0xFFFF_FFFF) as u32
}

pub fn time_mid(timestamp: u64) -> (r: u16)
    ensures
        r == time_mid_of(timestamp),
{
    ((timestamp >> 32u64) & 0xFFFF) as u16
}

pub fn time_hi_and_version(timestamp: u64) -> (r: u16)
    ensures
        r == time_hi_and_version_of(timestamp),
{
    let time_hi: u16 = ((timestamp >> 48u64) & 0x0FFF) as u16;
    let version: u16 = 0b0100_0000_0000_0000;
    time_hi | version
}

pub fn clock_seq_hi_and_reserved(sequence: u16) -> (r: u8)
    ensures
        r == clock_seq_hi_and_reserved_of(sequence),
{
    let clock_seq_hi: u8 = ((sequence >> 8u16) & 0x3F) as u8;
    let reserved: u8 = 0b1000_0000;
    clock_seq_hi | reserved
}

pub fn clock_seq_low(sequence: u16) -> (r: u8)
    ensures
        r == clock_seq_low_of(sequence),
{
    (sequence & 0xFF) as u8
}

/// Packs a timestamp, a clock sequence and a node id into an identifier.
pub fn assemble(timestamp: u64, sequence: u16, node_id: u64) -> (r: u128)
    ensures
        r == layout(timestamp, sequence, node_id),
        version_bits(r) == 0b0100,
        variant_bits(r) == 0b10,
{
    let mut id: u128 = 0;
    id = id | ((time_low(timestamp) as u128) << 96u128);
    id = id | ((time_mid(timestamp) as u128) << 80u128);
    id = id | ((time_hi_and_version(timestamp) as u128) << 64u128);
    id = id | ((clock_seq_hi_and_reserved(sequence) as u128) << 56u128);
    id = id | ((clock_seq_low(sequence) as u128) << 48u128);
    id = id | (((node_id as u128) << 16u128) & 0xFFFF_FFFF_FFFF);
    assert(id == layout(timestamp, sequence, node_id)) by (bit_vector)
        requires
            id == 0u128 | ((time_low_of(timestamp) as u128) << 96u128)
            | ((time_mid_of(timestamp) as u128) << 80u128)
            | ((time_hi_and_version_of(timestamp) as u128) << 64u128)
            | ((clock_seq_hi_and_reserved_of(sequence) as u128) << 56u128)
            | ((clock_seq_low_of(sequence) as u128) << 48u128)
            | (((node_id as u128) << 16u128) & 0xFFFF_FFFF_FFFF),
    ;
    proof {
        lemma_marker_bits(timestamp, sequence, node_id);
    }
    id
}

/// The timestamp read back from an identifier.
pub open spec fn decoded_timestamp(id: u128) -> u64 {
    (((id >> 96u128) & 0xFFFF_FFFF) | (((id >> 80u128) & 0xFFFF) << 32u128) | (((id
        >> 64u128) & 0x0FFF) << 48u128)) as u64
}

/// The clock sequence read back from an identifier.
pub open spec fn decoded_sequence(id: u128) -> u16 {
    ((((id >> 56u128) & 0x3F) << 8u128) | ((id >> 48u128) & 0xFF)) as u16
}

/// The node id read back from an identifier.
pub open spec fn decoded_node_id(id: u128) -> u64 {
    ((id >> 16u128) & 0xFFFF_FFFF) as u64
}

/// The version nibble: the top four bits of `time_hi_and_version`.
pub open spec fn version_bits(id: u128) -> u128 {
    (id >> 76u128) & 0xF
}

/// The variant: the top two bits of `clock_seq_hi_and_reserved`.
pub open spec fn variant_bits(id: u128) -> u128 {
    (id >> 62u128) & 0x3
}

/// Reading the fields back out of an assembled identifier gives the
/// timestamp, the sequence and the node id that went in, for every triple
/// that fits the layout's field widths (60, 14 and 32 bits).
pub proof fn lemma_assemble_decodes(timestamp: u64, sequence: u16, node_id: u64)
    requires
        timestamp < 0x1000_0000_0000_0000,
        sequence < 0x4000,
        node_id < 0x1_0000_0000,
    ensures
        decoded_timestamp(layout(timestamp, sequence, node_id)) == timestamp,
        decoded_sequence(layout(timestamp, sequence, node_id)) == sequence,
        decoded_node_id(layout(timestamp, sequence, node_id)) == node_id,
{
    let id = layout(timestamp, sequence, node_id);
    assert(decoded_timestamp(id) == timestamp) by (bit_vector)
        requires
            timestamp < 0x1000_0000_0000_0000,
            id == ((((timestamp & 0xFFFF_FFFF) as u32) as u128) << 96u128)
            | (((((timestamp >> 32u64) & 0xFFFF) as u16) as u128) << 80u128)
            | ((((((timestamp >> 48u64) & 0x0FFF) as u16) | 0x4000u16) as u128) << 64u128)
            | ((((((sequence >> 8u16) & 0x3F) as u8) | 0x80u8) as u128) << 56u128)
            | ((((sequence & 0xFF) as u8) as u128) << 48u128)
            | (((node_id as u128) << 16u128) & 0xFFFF_FFFF_FFFF),
            node_id < 0x1_0000_0000,
    ;
    assert(decoded_sequence(id) == sequence) by (bit_vector)
        requires
            sequence < 0x4000,
            id == ((((timestamp & 0xFFFF_FFFF) as u32) as u128) << 96u128)
            | (((((timestamp >> 32u64) & 0xFFFF) as u16) as u128) << 80u128)
            | ((((((timestamp >> 48u64) & 0x0FFF) as u16) | 0x4000u16) as u128) << 64u128)
            | ((((((sequence >> 8u16) & 0x3F) as u8) | 0x80u8) as u128) << 56u128)
            | ((((sequence & 0xFF) as u8) as u128) << 48u128)
            | (((node_id as u128) << 16u128) & 0xFFFF_FFFF_FFFF),
            node_id < 0x1_0000_0000,
    ;
    assert(decoded_node_id(id) == node_id) by (bit_vector)
        requires
            id == ((((timestamp & 0xFFFF_FFFF) as u32) as u128) << 96u128)
            | (((((timestamp >> 32u64) & 0xFFFF) as u16) as u128) << 80u128)
            | ((((((timestamp >> 48u64) & 0x0FFF) as u16) | 0x4000u16) as u128) << 64u128)
            | ((((((sequence >> 8u16) & 0x3F) as u8) | 0x80u8) as u128) << 56u128)
            | ((((sequence & 0xFF) as u8) as u128) << 48u128)
            | (((node_id as u128) << 16u128) & 0xFFFF_FFFF_FFFF),
            node_id < 0x1_0000_0000,
    ;
}

/// Every assembled identifier carries the version nibble `0100` and the
/// variant `10`, whatever the timestamp, the sequence and the node id.
pub proof fn lemma_marker_bits(timestamp: u64, sequence: u16, node_id: u64)
    ensures
        version_bits(layout(timestamp, sequence, node_id)) == 0b0100,
        variant_bits(layout(timestamp, sequence, node_id)) == 0b10,
{
    let id = layout(timestamp, sequence, node_id);
    assert(version_bits(id) == 0b0100 && variant_bits(id) == 0b10) by (bit_vector)
        requires
            id == ((((timestamp & 0xFFFF_FFFF) as u32) as u128) << 96u128)
            | (((((timestamp >> 32u64) & 0xFFFF) as u16) as u128) << 80u128)
            | ((((((timestamp >> 48u64) & 0x0FFF) as u16) | 0x4000u16) as u128) << 64u128)
            | ((((((sequence >> 8u16) & 0x3F) as u8) | 0x80u8) as u128) << 56u128)
            | ((((sequence & 0xFF) as u8) as u128) << 48u128)
            | (((node_id as u128) << 16u128) & 0xFFFF_FFFF_FFFF),
    ;
}

/// An identifier in its text form.
pub struct UUID {
    pub id: String,
}

impl UUID {
    pub fn new(id: String) -> (r: Self)
        ensures
            r.id@ == id@,
    {
        Self { id }
    }

    /// The identifier's text.
    pub fn to_string(&self) -> (r: String)
        ensures
            r@ == self.id@,
    {
        self.id.clone()
    }
}

/// ASCII bytes as the characters they encode.
pub open spec fn ascii_chars(bytes: Seq<u8>) -> Seq<char> {
    bytes.map_values(|b: u8| b as char)
}

/// The base-10 text of a number.
pub open spec fn decimal_text(n: nat) -> Seq<char> {
    ascii_chars(digits_of(n))
}

/// Relies on std's `String::from_utf8`: ASCII bytes are valid UTF-8 and
/// decode to one character each.
#[verifier::external_body]
fn ascii_string(bytes: Vec<u8>) -> (r: String)
    requires
        forall|i: int| 0 <= i < bytes@.len() ==> bytes@[i] < 128,
    ensures
        r@ == ascii_chars(bytes@),
{
    match String::from_utf8(bytes) {
        Ok(s) => s,
        Err(_) => String::new(),
    }
}

/// The identifier for a state and a node id: `assemble` on the state's
/// timestamp and sequence, written as a base-10 number.
pub fn identifier(state: &GeneratorState, node_id: u64) -> (r: UUID)
    ensures
        r.id@ == decimal_text(layout(state.last_timestamp, state.sequence, node_id) as nat),
{
    let value = assemble(state.last_timestamp, state.sequence, node_id);
    let mut digits: Vec<u8> = Vec::new();
    push_decimal(value, &mut digits);
    proof {
        lemma_digits_of(value as nat);
        assert(digits@ == digits_of(value as nat));
    }
    UUID::new(ascii_string(digits))
}

} // verus!
