//! The byte-level shape of every field, as specification functions, and the
//! executable coders that are proved to follow it.
//!
//! Integers travel least significant byte first. A boolean is one of two
//! sentinel bytes, never 0 or 1. A buffer is its length as a `u32` and then its
//! bytes; a string is the buffer of its UTF-8 encoding.

use crate::stream::error::StreamError;
use byteorder::{ByteOrder, LittleEndian};
use std::string::FromUtf8Error;
use vstd::prelude::*;
use vstd::utf8::{decode_utf8, encode_utf8, valid_utf8};

verus! {

/// The byte that stands for `true`, and for a request that succeeded.
pub const TRUE_INDICATOR: u8 = 33;

/// The byte that stands for `false`, and for a request that failed.
pub const FALSE_INDICATOR: u8 = 63;

/// The byte that encodes a boolean.
pub open spec fn bool_byte(value: bool) -> u8 {
    if value {
        TRUE_INDICATOR
    } else {
        FALSE_INDICATOR
    }
}

/// The boolean that a byte encodes, if it is one of the two sentinels.
pub open spec fn byte_bool(byte: u8) -> Result<bool, StreamError> {
    if byte == TRUE_INDICATOR {
        Ok(true)
    } else if byte == FALSE_INDICATOR {
        Ok(false)
    } else {
        Err(StreamError::InvalidData)
    }
}

/// A boolean on the wire: its sentinel byte.
pub open spec fn bool_field(value: bool) -> Seq<u8> {
    seq![bool_byte(value)]
}

/// A `u8` on the wire: the byte itself.
pub open spec fn u8_field(value: u8) -> Seq<u8> {
    seq![value]
}

/// The two bytes of a `u16`, least significant first.
pub open spec fn u16_le(value: u16) -> Seq<u8> {
    seq![(value % 0x100) as u8, (value / 0x100) as u8]
}

/// The `u16` that two bytes spell, least significant first.
pub open spec fn u16_of_le(bytes: Seq<u8>) -> u16
    recommends
        bytes.len() == 2,
{
    (bytes[0] + 0x100 * bytes[1]) as u16
}

/// The four bytes of a `u32`, least significant first.
pub open spec fn u32_le(value: u32) -> Seq<u8> {
    seq![
        (value % 0x100) as u8,
        (value / 0x100 % 0x100) as u8,
        (value / 0x1_0000 % 0x100) as u8,
        (value / 0x100_0000) as u8,
    ]
}

/// The `u32` that four bytes spell, least significant first.
pub open spec fn u32_of_le(bytes: Seq<u8>) -> u32
    recommends
        bytes.len() == 4,
{
    (bytes[0] + 0x100 * bytes[1] + 0x1_0000 * bytes[2] + 0x100_0000 * bytes[3]) as u32
}

/// The eight bytes of a `u64`, least significant first.
pub open spec fn u64_le(value: u64) -> Seq<u8> {
    seq![
        (value % 0x100) as u8,
        (value / 0x100 % 0x100) as u8,
        (value / 0x1_0000 % 0x100) as u8,
        (value / 0x100_0000 % 0x100) as u8,
        (value / 0x1_0000_0000 % 0x100) as u8,
        (value / 0x100_0000_0000 % 0x100) as u8,
        (value / 0x1_0000_0000_0000 % 0x100) as u8,
        (value / 0x100_0000_0000_0000) as u8,
    ]
}

/// The `u64` that eight bytes spell, least significant first.
pub open spec fn u64_of_le(bytes: Seq<u8>) -> u64
    recommends
        bytes.len() == 8,
{
    (bytes[0] + 0x100 * bytes[1] + 0x1_0000 * bytes[2] + 0x100_0000 * bytes[3] + 0x1_0000_0000
        * bytes[4] + 0x100_0000_0000 * bytes[5] + 0x1_0000_0000_0000 * bytes[6]
        + 0x100_0000_0000_0000 * bytes[7]) as u64
}

/// A buffer on the wire: its length in four bytes, then its bytes.
pub open spec fn buf_field(payload: Seq<u8>) -> Seq<u8>
    recommends
        payload.len() <= u32::MAX,
{
    u32_le(payload.len() as u32) + payload
}

/// A string on the wire: the buffer of its UTF-8 encoding.
pub open spec fn str_field(text: Seq<char>) -> Seq<u8>
    recommends
        encode_utf8(text).len() <= u32::MAX,
{
    buf_field(encode_utf8(text))
}

/// The text that bytes spell in UTF-8, if they spell any.
pub open spec fn utf8_text(bytes: Seq<u8>) -> Result<Seq<char>, StreamError> {
    if valid_utf8(bytes) {
        Ok(decode_utf8(bytes))
    } else {
        Err(StreamError::InvalidData)
    }
}

/// Reading `count` bytes from a stream on which `pending` is all that will
/// still arrive: the bytes read, and what is pending after them. Where fewer
/// will arrive, the stream closes first, and what did arrive is lost.
pub open spec fn parse_bytes(pending: Seq<u8>, count: nat) -> (
    Result<Seq<u8>, StreamError>,
    Seq<u8>,
) {
    if count <= pending.len() {
        (Ok(pending.take(count as int)), pending.skip(count as int))
    } else {
        (Err(StreamError::ClosedStream), Seq::empty())
    }
}

/// Reading a boolean: one byte, which has to be a sentinel.
pub open spec fn parse_bool(pending: Seq<u8>) -> (Result<bool, StreamError>, Seq<u8>) {
    match parse_bytes(pending, 1) {
        (Ok(bytes), rest) => (byte_bool(bytes[0]), rest),
        (Err(error), rest) => (Err(error), rest),
    }
}

/// Reading a `u8`: one byte.
pub open spec fn parse_u8(pending: Seq<u8>) -> (Result<u8, StreamError>, Seq<u8>) {
    match parse_bytes(pending, 1) {
        (Ok(bytes), rest) => (Ok(bytes[0]), rest),
        (Err(error), rest) => (Err(error), rest),
    }
}

/// Reading a `u16`: two bytes, least significant first.
pub open spec fn parse_u16(pending: Seq<u8>) -> (Result<u16, StreamError>, Seq<u8>) {
    match parse_bytes(pending, 2) {
        (Ok(bytes), rest) => (Ok(u16_of_le(bytes)), rest),
        (Err(error), rest) => (Err(error), rest),
    }
}

/// Reading a `u32`: four bytes, least significant first.
pub open spec fn parse_u32(pending: Seq<u8>) -> (Result<u32, StreamError>, Seq<u8>) {
    match parse_bytes(pending, 4) {
        (Ok(bytes), rest) => (Ok(u32_of_le(bytes)), rest),
        (Err(error), rest) => (Err(error), rest),
    }
}

/// Reading a `u64`: eight bytes, least significant first.
pub open spec fn parse_u64(pending: Seq<u8>) -> (Result<u64, StreamError>, Seq<u8>) {
    match parse_bytes(pending, 8) {
        (Ok(bytes), rest) => (Ok(u64_of_le(bytes)), rest),
        (Err(error), rest) => (Err(error), rest),
    }
}

/// Reading a buffer: a `u32`, then as many bytes as it says.
pub open spec fn parse_buf(pending: Seq<u8>) -> (Result<Seq<u8>, StreamError>, Seq<u8>) {
    match parse_u32(pending) {
        (Ok(len), rest) => parse_bytes(rest, len as nat),
        (Err(error), rest) => (Err(error), rest),
    }
}

/// Reading a string: a buffer, which has to be UTF-8.
pub open spec fn parse_string(pending: Seq<u8>) -> (Result<Seq<char>, StreamError>, Seq<u8>) {
    match parse_buf(pending) {
        (Ok(bytes), rest) => (utf8_text(bytes), rest),
        (Err(error), rest) => (Err(error), rest),
    }
}

/// A result as the contracts see it: the view of what was read, or the error.
pub open spec fn result_view<T: View>(result: Result<T, StreamError>) -> Result<T::V, StreamError> {
    match result {
        Ok(value) => Ok(value@),
        Err(error) => Err(error),
    }
}

pub fn encode_bool(value: bool) -> (byte: u8)
    ensures
        byte == bool_byte(value),
        byte == TRUE_INDICATOR || byte == FALSE_INDICATOR,
{
    if value {
        TRUE_INDICATOR
    } else {
        FALSE_INDICATOR
    }
}

pub fn decode_bool(byte: u8) -> (value: Result<bool, StreamError>)
    ensures
        value == byte_bool(byte),
{
    if byte == TRUE_INDICATOR {
        Ok(true)
    } else if byte == FALSE_INDICATOR {
        Ok(false)
    } else {
        Err(StreamError::InvalidData)
    }
}

pub fn encode_u16(value: u16) -> (bytes: [u8; 2])
    ensures
        bytes@ == u16_le(value),
{
    [(value % 0x100) as u8, (value / 0x100) as u8]
}

pub fn encode_u32(value: u32) -> (bytes: [u8; 4])
    ensures
        bytes@ == u32_le(value),
{
    [
        (value % 0x100) as u8,
        (value / 0x100 % 0x100) as u8,
        (value / 0x1_0000 % 0x100) as u8,
        (value / 0x100_0000) as u8,
    ]
}

pub fn encode_u64(value: u64) -> (bytes: [u8; 8])
    ensures
        bytes@ == u64_le(value),
{
    [
        (value % 0x100) as u8,
        (value / 0x100 % 0x100) as u8,
        (value / 0x1_0000 % 0x100) as u8,
        (value / 0x100_0000 % 0x100) as u8,
        (value / 0x1_0000_0000 % 0x100) as u8,
        (value / 0x100_0000_0000 % 0x100) as u8,
        (value / 0x1_0000_0000_0000 % 0x100) as u8,
        (value / 0x100_0000_0000_0000) as u8,
    ]
}

/// `byteorder::LittleEndian::read_u16` on exactly two bytes: the first byte
/// is the low half of the result and the second the high half.
#[verifier::external_body]
fn le_read_u16(bytes: &[u8; 2]) -> (value: u16)
    ensures
        value == u16_of_le(bytes@),
{
    LittleEndian::read_u16(bytes)
}

/// `byteorder::LittleEndian::read_u32` on exactly four bytes: each byte is
/// worth 256 times the one before it.
#[verifier::external_body]
fn le_read_u32(bytes: &[u8; 4]) -> (value: u32)
    ensures
        value == u32_of_le(bytes@),
{
    LittleEndian::read_u32(bytes)
}

/// `byteorder::LittleEndian::read_u64` on exactly eight bytes: each byte is
/// worth 256 times the one before it.
#[verifier::external_body]
fn le_read_u64(bytes: &[u8; 8]) -> (value: u64)
    ensures
        value == u64_of_le(bytes@),
{
    LittleEndian::read_u64(bytes)
}

pub fn decode_u16(bytes: &[u8; 2]) -> (value: u16)
    ensures
        value == u16_of_le(bytes@),
{
    le_read_u16(bytes)
}

pub fn decode_u32(bytes: &[u8; 4]) -> (value: u32)
    ensures
        value == u32_of_le(bytes@),
{
    le_read_u32(bytes)
}

pub fn decode_u64(bytes: &[u8; 8]) -> (value: u64)
    ensures
        value == u64_of_le(bytes@),
{
    le_read_u64(bytes)
}

/// The error of `String::from_utf8`. Nothing is read from it.
#[verifier::external_type_specification]
#[verifier::external_body]
pub struct ExFromUtf8Error(FromUtf8Error);

/// `String::from_utf8` succeeds on the bytes that are UTF-8 and on no others,
/// and the string that it gives is made of the very bytes that it was given.
pub assume_specification[ String::from_utf8 ](bytes: Vec<u8>) -> (text: Result<
    String,
    FromUtf8Error,
>)
    ensures
        text is Ok <==> valid_utf8(bytes@),
        text matches Ok(string) ==> encode_utf8(string@) == bytes@,
;

pub fn decode_string(bytes: Vec<u8>) -> (text: Result<String, StreamError>)
    ensures
        result_view(text) == utf8_text(bytes@),
{
    match String::from_utf8(bytes) {
        Ok(string) => {
            proof {
                vstd::utf8::encode_utf8_decode_utf8(string@);
            }
            Ok(string)
        },
        Err(_) => Err(StreamError::InvalidData),
    }
}

/// Reading back the bytes of a `u16` gives the `u16`.
pub proof fn lemma_u16_le_round_trip(value: u16)
    ensures
        u16_le(value).len() == 2,
        u16_of_le(u16_le(value)) == value,
{
}

/// Reading back the bytes of a `u32` gives the `u32`.
pub proof fn lemma_u32_le_round_trip(value: u32)
    ensures
        u32_le(value).len() == 4,
        u32_of_le(u32_le(value)) == value,
{
    assert(value == (value % 0x100) + 0x100 * (value / 0x100 % 0x100) + 0x1_0000 * (value
        / 0x1_0000 % 0x100) + 0x100_0000 * (value / 0x100_0000)) by (bit_vector);
}

/// Reading back the bytes of a `u64` gives the `u64`.
pub proof fn lemma_u64_le_round_trip(value: u64)
    ensures
        u64_le(value).len() == 8,
        u64_of_le(u64_le(value)) == value,
{
    assert(value == (value % 0x100) + 0x100 * (value / 0x100 % 0x100) + 0x1_0000 * (value
        / 0x1_0000 % 0x100) + 0x100_0000 * (value / 0x100_0000 % 0x100) + 0x1_0000_0000 * (value
        / 0x1_0000_0000 % 0x100) + 0x100_0000_0000 * (value / 0x100_0000_0000 % 0x100)
        + 0x1_0000_0000_0000 * (value / 0x1_0000_0000_0000 % 0x100) + 0x100_0000_0000_0000 * (
    value / 0x100_0000_0000_0000)) by (bit_vector);
}

/// Two bytes are the encoding of the `u16` that they spell.
pub proof fn lemma_u16_le_unique(bytes: Seq<u8>)
    requires
        bytes.len() == 2,
    ensures
        u16_le(u16_of_le(bytes)) == bytes,
{
}

/// Four bytes are the encoding of the `u32` that they spell.
pub proof fn lemma_u32_le_unique(bytes: Seq<u8>)
    requires
        bytes.len() == 4,
    ensures
        u32_le(u32_of_le(bytes)) == bytes,
{
    let (b0, b1, b2, b3) = (bytes[0], bytes[1], bytes[2], bytes[3]);
    let value = u32_of_le(bytes);
    assert(value == b0 + 0x100 * b1 + 0x1_0000 * b2 + 0x100_0000 * b3);
    assert(value % 0x100 == b0 && value / 0x100 % 0x100 == b1 && value / 0x1_0000 % 0x100 == b2
        && value / 0x100_0000 == b3) by (bit_vector)
        requires
            value == b0 + 0x100 * b1 + 0x1_0000 * b2 + 0x100_0000 * b3,
    ;
    assert(u32_le(value) =~= bytes);
}

/// Eight bytes are the encoding of the `u64` that they spell.
pub proof fn lemma_u64_le_unique(bytes: Seq<u8>)
    requires
        bytes.len() == 8,
    ensures
        u64_le(u64_of_le(bytes)) == bytes,
{
    let (b0, b1, b2, b3) = (bytes[0], bytes[1], bytes[2], bytes[3]);
    let (b4, b5, b6, b7) = (bytes[4], bytes[5], bytes[6], bytes[7]);
    let value = u64_of_le(bytes);
    assert(value == b0 + 0x100 * b1 + 0x1_0000 * b2 + 0x100_0000 * b3 + 0x1_0000_0000 * b4
        + 0x100_0000_0000 * b5 + 0x1_0000_0000_0000 * b6 + 0x100_0000_0000_0000 * b7);
    assert(value % 0x100 == b0 && value / 0x100 % 0x100 == b1 && value / 0x1_0000 % 0x100 == b2
        && value / 0x100_0000 % 0x100 == b3 && value / 0x1_0000_0000 % 0x100 == b4 && value
        / 0x100_0000_0000 % 0x100 == b5 && value / 0x1_0000_0000_0000 % 0x100 == b6 && value
        / 0x100_0000_0000_0000 == b7) by (bit_vector)
        requires
            value == b0 + 0x100 * b1 + 0x1_0000 * b2 + 0x100_0000 * b3 + 0x1_0000_0000 * b4
                + 0x100_0000_0000 * b5 + 0x1_0000_0000_0000 * b6 + 0x100_0000_0000_0000 * b7,
    ;
    assert(u64_le(value) =~= bytes);
}

/// A boolean that was written is the boolean that is read, and what follows
/// it on the wire is left for the next field.
pub proof fn lemma_bool_round_trip(value: bool, rest: Seq<u8>)
    ensures
        parse_bool(bool_field(value) + rest) == (Ok::<bool, StreamError>(value), rest),
{
    let wire = bool_field(value) + rest;
    assert(wire.skip(1) =~= rest);
}

/// Only the two sentinels are booleans: no other byte is ever written for
/// one, and any other byte read as one is refused as invalid data.
pub proof fn lemma_bool_sentinels(byte: u8, rest: Seq<u8>)
    ensures
        forall|value: bool|
            #[trigger] bool_byte(value) == TRUE_INDICATOR || bool_byte(value) == FALSE_INDICATOR,
        byte != TRUE_INDICATOR && byte != FALSE_INDICATOR ==> parse_bool(seq![byte] + rest).0
            == Err::<bool, StreamError>(StreamError::InvalidData),
        byte == TRUE_INDICATOR || byte == FALSE_INDICATOR ==> parse_bool(seq![byte] + rest).0
            is Ok,
{
}

/// A `u8` that was written is the `u8` that is read.
pub proof fn lemma_u8_round_trip(value: u8, rest: Seq<u8>)
    ensures
        parse_u8(u8_field(value) + rest) == (Ok::<u8, StreamError>(value), rest),
{
    let wire = u8_field(value) + rest;
    assert(wire.skip(1) =~= rest);
}

/// A `u16` that was written is the `u16` that is read.
pub proof fn lemma_u16_round_trip(value: u16, rest: Seq<u8>)
    ensures
        parse_u16(u16_le(value) + rest) == (Ok::<u16, StreamError>(value), rest),
{
    let wire = u16_le(value) + rest;
    assert(wire.take(2) =~= u16_le(value));
    assert(wire.skip(2) =~= rest);
    lemma_u16_le_round_trip(value);
}

/// A `u32` that was written is the `u32` that is read.
pub proof fn lemma_u32_round_trip(value: u32, rest: Seq<u8>)
    ensures
        parse_u32(u32_le(value) + rest) == (Ok::<u32, StreamError>(value), rest),
{
    let wire = u32_le(value) + rest;
    assert(wire.take(4) =~= u32_le(value));
    assert(wire.skip(4) =~= rest);
    lemma_u32_le_round_trip(value);
}

/// A `u64` that was written is the `u64` that is read.
pub proof fn lemma_u64_round_trip(value: u64, rest: Seq<u8>)
    ensures
        parse_u64(u64_le(value) + rest) == (Ok::<u64, StreamError>(value), rest),
{
    let wire = u64_le(value) + rest;
    assert(wire.take(8) =~= u64_le(value));
    assert(wire.skip(8) =~= rest);
    lemma_u64_le_round_trip(value);
}

/// A buffer shorter than 2^32 bytes that was written is the buffer that is
/// read, and the four bytes in front of it on the wire are its length.
pub proof fn lemma_buf_round_trip(payload: Seq<u8>, rest: Seq<u8>)
    requires
        payload.len() <= u32::MAX,
    ensures
        parse_buf(buf_field(payload) + rest) == (Ok::<Seq<u8>, StreamError>(payload), rest),
        buf_field(payload).take(4) == u32_le(payload.len() as u32),
        buf_field(payload).skip(4) == payload,
{
    let len = payload.len() as u32;
    let wire = buf_field(payload) + rest;
    assert(wire =~= u32_le(len) + (payload + rest));
    lemma_u32_round_trip(len, payload + rest);
    assert((payload + rest).take(payload.len() as int) =~= payload);
    assert((payload + rest).skip(payload.len() as int) =~= rest);
    assert(buf_field(payload).take(4) =~= u32_le(len));
    assert(buf_field(payload).skip(4) =~= payload);
}

/// A string whose UTF-8 encoding is shorter than 2^32 bytes and that was
/// written is the string that is read.
pub proof fn lemma_str_round_trip(text: Seq<char>, rest: Seq<u8>)
    requires
        encode_utf8(text).len() <= u32::MAX,
    ensures
        parse_string(str_field(text) + rest) == (Ok::<Seq<char>, StreamError>(text), rest),
{
    lemma_buf_round_trip(encode_utf8(text), rest);
    vstd::utf8::encode_utf8_valid_utf8(text);
    vstd::utf8::encode_utf8_decode_utf8(text);
}

} // verus!
