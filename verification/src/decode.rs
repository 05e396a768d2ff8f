//! Typed decoding of the raw bytes of one register.

use crate::errors::S7Error;
use crate::types::{DataType, RegAddress, Register, RegisterValue};
use vstd::arithmetic::power2::{lemma2_to64, pow2};
use vstd::prelude::*;

verus! {

/// The number of bytes that a value of type `data_type` occupies.
pub open spec fn width(data_type: DataType) -> nat {
    match data_type {
        DataType::BOOL => 1,
        DataType::FLOAT => 4,
        DataType::INT32 => 4,
        DataType::INT16 => 2,
    }
}

/// Whether `len` raw bytes are what a register of type `data_type` is read
/// from. A number comes as exactly its width. A flag comes with the byte
/// that holds it, and whatever follows that byte is let through.
pub open spec fn length_fits(data_type: DataType, len: nat) -> bool {
    if data_type == DataType::BOOL {
        len >= width(data_type)
    } else {
        len == width(data_type)
    }
}

/// Whether bit `bit` of `byte` is set, by the single-bit mask.
pub open spec fn bit_is_set(byte: u8, bit: u16) -> bool {
    byte & (1u8 << bit) != 0
}

/// The unsigned number that two bytes denote, least significant byte first.
pub open spec fn le_u16(raw: Seq<u8>) -> int {
    raw[0] + 0x100 * raw[1]
}

/// The unsigned number that four bytes denote, least significant byte first.
pub open spec fn le_u32(raw: Seq<u8>) -> int {
    raw[0] + 0x100 * raw[1] + 0x1_0000 * raw[2] + 0x100_0000 * raw[3]
}

/// The two's-complement reading of a 16-bit pattern.
pub open spec fn signed16(pattern: int) -> int {
    if pattern < 0x8000 {
        pattern
    } else {
        pattern - 0x1_0000
    }
}

/// The two's-complement reading of a 32-bit pattern.
pub open spec fn signed32(pattern: int) -> int {
    if pattern < 0x8000_0000 {
        pattern
    } else {
        pattern - 0x1_0000_0000
    }
}

/// The value that `raw` holds for `register`, where the definition is
/// decodable and the length fits.
pub open spec fn value_of(raw: Seq<u8>, register: Register) -> RegisterValue {
    match register.data_type {
        DataType::BOOL => RegisterValue::Boolean(bit_is_set(raw[0], register.addr->Bit_0.bit)),
        DataType::FLOAT => RegisterValue::Float32(le_u32(raw) as u32),
        DataType::INT32 => RegisterValue::S32(signed32(le_u32(raw)) as i32),
        DataType::INT16 => RegisterValue::S16(signed16(le_u16(raw)) as i16),
    }
}

/// The outcome of decoding `raw` as `register`. The definition is judged
/// first, then the length; only then are the bytes read.
pub open spec fn decoded(raw: Seq<u8>, register: Register) -> Result<RegisterValue, S7Error> {
    if !register.decodable() {
        Err(S7Error::InvalidRegisterValue)
    } else if !length_fits(register.data_type, raw.len()) {
        Err(S7Error::MismatchedRegisterLengthError)
    } else {
        Ok(value_of(raw, register))
    }
}

fn read_le_u16(raw: &Vec<u8>) -> (pattern: u16)
    requires
        raw@.len() == 2,
    ensures
        pattern == le_u16(raw@),
{
    let low: u16 = raw[0] as u16;
    let high: u16 = raw[1] as u16;
    low + 0x100 * high
}

fn read_le_u32(raw: &Vec<u8>) -> (pattern: u32)
    requires
        raw@.len() == 4,
    ensures
        pattern == le_u32(raw@),
{
    let b0: u32 = raw[0] as u32;
    let b1: u32 = raw[1] as u32;
    let b2: u32 = raw[2] as u32;
    let b3: u32 = raw[3] as u32;
    b0 + 0x100 * b1 + 0x1_0000 * b2 + 0x100_0000 * b3
}

impl TryFrom<(Vec<u8>, Register)> for RegisterValue {
    type Error = S7Error;

    /// Decodes the raw bytes `value.0` as the register `value.1`.
    ///
    /// A definition that is not decodable is an `InvalidRegisterValue`,
    /// whatever the bytes are. For a decodable one, a length that does not
    /// fit the data type is a `MismatchedRegisterLengthError`. Otherwise the
    /// result is the value that the bytes hold, and never a part of one.
    fn try_from(value: (Vec<u8>, Register)) -> (ret: Result<RegisterValue, S7Error>)
        ensures
            ret == decoded(value.0@, value.1),
            ret == Err::<RegisterValue, S7Error>(S7Error::InvalidRegisterValue)
                <==> !value.1.decodable(),
            ret == Err::<RegisterValue, S7Error>(S7Error::MismatchedRegisterLengthError)
                <==> value.1.decodable() && !length_fits(value.1.data_type, value.0@.len()),
            ret == Ok::<RegisterValue, S7Error>(value_of(value.0@, value.1))
                <==> value.1.decodable() && length_fits(value.1.data_type, value.0@.len()),
    {
        let (raw, register) = value;
        match register.data_type {
            DataType::BOOL => {
                let addr = match register.addr {
                    RegAddress::Byte(_) => {
                        return Err(S7Error::InvalidRegisterValue);
                    },
                    RegAddress::Bit(addr) => addr,
                };
                if addr.bit > 7 {
                    return Err(S7Error::InvalidRegisterValue);
                }
                if raw.len() < 1 {
                    return Err(S7Error::MismatchedRegisterLengthError);
                }
                let bit: u8 = raw[0] & (1u8 << addr.bit);
                Ok(RegisterValue::Boolean(bit != 0))
            },
            DataType::FLOAT => {
                if raw.len() != 4 {
                    return Err(S7Error::MismatchedRegisterLengthError);
                }
                Ok(RegisterValue::Float32(read_le_u32(&raw)))
            },
            DataType::INT32 => {
                if raw.len() != 4 {
                    return Err(S7Error::MismatchedRegisterLengthError);
                }
                let pattern: u32 = read_le_u32(&raw);
                let val: i32 = if pattern < 0x8000_0000 {
                    pattern as i32
                } else {
                    (pattern as i64 - 0x1_0000_0000) as i32
                };
                Ok(RegisterValue::S32(val))
            },
            DataType::INT16 => {
                if raw.len() != 2 {
                    return Err(S7Error::MismatchedRegisterLengthError);
                }
                let pattern: u16 = read_le_u16(&raw);
                let val: i16 = if pattern < 0x8000 {
                    pattern as i16
                } else {
                    (pattern as i32 - 0x1_0000) as i16
                };
                Ok(RegisterValue::S16(val))
            },
        }
    }
}

impl vstd::std_specs::convert::TryFromSpecImpl<(Vec<u8>, Register)> for RegisterValue {
    open spec fn obeys_try_from_spec() -> bool {
        true
    }

    open spec fn try_from_spec(value: (Vec<u8>, Register)) -> Result<RegisterValue, S7Error> {
        decoded(value.0@, value.1)
    }
}

/// The bytes of a 16-bit number, least significant byte first. For a
/// negative `value` these are the bytes of its two's complement.
pub open spec fn le_bytes_16(value: int) -> Seq<u8> {
    seq![(value % 0x100) as u8, (value / 0x100 % 0x100) as u8]
}

/// The bytes of a 32-bit number, least significant byte first. For a
/// negative `value` these are the bytes of its two's complement.
pub open spec fn le_bytes_32(value: int) -> Seq<u8> {
    seq![
        (value % 0x100) as u8,
        (value / 0x100 % 0x100) as u8,
        (value / 0x1_0000 % 0x100) as u8,
        (value / 0x100_0000 % 0x100) as u8,
    ]
}

proof fn lemma_le_bytes_16_of_pattern(raw: Seq<u8>)
    requires
        raw.len() == 2,
    ensures
        0 <= le_u16(raw) < 0x1_0000,
        le_bytes_16(le_u16(raw)) == raw,
        le_bytes_16(signed16(le_u16(raw))) == raw,
{
    let pattern = le_u16(raw);
    let val = signed16(pattern);
    assert(pattern % 0x100 == raw[0]);
    assert(pattern / 0x100 % 0x100 == raw[1]);
    assert(val % 0x100 == raw[0]);
    assert(val / 0x100 % 0x100 == raw[1]);
    assert(le_bytes_16(pattern) =~= raw);
    assert(le_bytes_16(val) =~= raw);
}

proof fn lemma_le_bytes_32_of_pattern(raw: Seq<u8>)
    requires
        raw.len() == 4,
    ensures
        0 <= le_u32(raw) < 0x1_0000_0000,
        le_bytes_32(le_u32(raw)) == raw,
        le_bytes_32(signed32(le_u32(raw))) == raw,
{
    let pattern = le_u32(raw);
    let val = signed32(pattern);
    assert(pattern % 0x100 == raw[0]);
    assert(pattern / 0x100 % 0x100 == raw[1]);
    assert(pattern / 0x1_0000 % 0x100 == raw[2]);
    assert(pattern / 0x100_0000 % 0x100 == raw[3]);
    assert(val % 0x100 == raw[0]);
    assert(val / 0x100 % 0x100 == raw[1]);
    assert(val / 0x1_0000 % 0x100 == raw[2]);
    assert(val / 0x100_0000 % 0x100 == raw[3]);
    assert(le_bytes_32(pattern) =~= raw);
    assert(le_bytes_32(val) =~= raw);
}

proof fn lemma_pattern_of_le_bytes_16(value: int)
    requires
        -0x8000 <= value < 0x1_0000,
    ensures
        le_bytes_16(value).len() == 2,
        value >= 0 ==> le_u16(le_bytes_16(value)) == value,
        value < 0 ==> le_u16(le_bytes_16(value)) == value + 0x1_0000,
{
    let low = value % 0x100;
    let high = value / 0x100 % 0x100;
    assert(le_bytes_16(value)[0] == low);
    assert(le_bytes_16(value)[1] == high);
}

proof fn lemma_pattern_of_le_bytes_32(value: int)
    requires
        -0x8000_0000 <= value < 0x1_0000_0000,
    ensures
        le_bytes_32(value).len() == 4,
        value >= 0 ==> le_u32(le_bytes_32(value)) == value,
        value < 0 ==> le_u32(le_bytes_32(value)) == value + 0x1_0000_0000,
{
    let b0 = value % 0x100;
    let b1 = value / 0x100 % 0x100;
    let b2 = value / 0x1_0000 % 0x100;
    let b3 = value / 0x100_0000 % 0x100;
    assert(le_bytes_32(value)[0] == b0);
    assert(le_bytes_32(value)[1] == b1);
    assert(le_bytes_32(value)[2] == b2);
    assert(le_bytes_32(value)[3] == b3);
}

/// Any two bytes decode as INT16 to the two's-complement number they denote
/// in little-endian order, and encoding that number gives the same two bytes
/// back.
pub proof fn lemma_int16_decode_encode(raw: Seq<u8>, register: Register)
    requires
        register.data_type == DataType::INT16,
        raw.len() == 2,
    ensures
        decoded(raw, register) matches Ok(RegisterValue::S16(val))
            && val == signed16(le_u16(raw))
            && le_bytes_16(val as int) == raw,
{
    lemma_le_bytes_16_of_pattern(raw);
}

/// Every `i16` is what its own little-endian bytes decode to as INT16.
pub proof fn lemma_int16_encode_decode(val: i16, register: Register)
    requires
        register.data_type == DataType::INT16,
    ensures
        decoded(le_bytes_16(val as int), register)
            == Ok::<RegisterValue, S7Error>(RegisterValue::S16(val)),
{
    lemma_pattern_of_le_bytes_16(val as int);
}

/// Any four bytes decode as INT32 to the two's-complement number they denote
/// in little-endian order, and encoding that number gives the same four
/// bytes back.
pub proof fn lemma_int32_decode_encode(raw: Seq<u8>, register: Register)
    requires
        register.data_type == DataType::INT32,
        raw.len() == 4,
    ensures
        decoded(raw, register) matches Ok(RegisterValue::S32(val))
            && val == signed32(le_u32(raw))
            && le_bytes_32(val as int) == raw,
{
    lemma_le_bytes_32_of_pattern(raw);
}

/// Every `i32` is what its own little-endian bytes decode to as INT32.
pub proof fn lemma_int32_encode_decode(val: i32, register: Register)
    requires
        register.data_type == DataType::INT32,
    ensures
        decoded(le_bytes_32(val as int), register)
            == Ok::<RegisterValue, S7Error>(RegisterValue::S32(val)),
{
    lemma_pattern_of_le_bytes_32(val as int);
}

/// Any four bytes decode as FLOAT to the bit pattern they denote in
/// little-endian order, and encoding that pattern gives the same four bytes
/// back. No pattern is turned away.
pub proof fn lemma_float_decode_encode(raw: Seq<u8>, register: Register)
    requires
        register.data_type == DataType::FLOAT,
        raw.len() == 4,
    ensures
        decoded(raw, register) matches Ok(RegisterValue::Float32(bits))
            && bits == le_u32(raw)
            && le_bytes_32(bits as int) == raw,
{
    lemma_le_bytes_32_of_pattern(raw);
}

/// Every bit pattern is what its own little-endian bytes decode to as FLOAT.
pub proof fn lemma_float_encode_decode(bits: u32, register: Register)
    requires
        register.data_type == DataType::FLOAT,
    ensures
        decoded(le_bytes_32(bits as int), register)
            == Ok::<RegisterValue, S7Error>(RegisterValue::Float32(bits)),
{
    lemma_pattern_of_le_bytes_32(bits as int);
}

/// The mask reads a binary digit: bit `bit` of `byte` is set exactly when the
/// digit of weight two to the power `bit` is one.
pub proof fn lemma_bit_is_binary_digit(byte: u8, bit: u16)
    requires
        bit <= 7,
    ensures
        bit_is_set(byte, bit) <==> (byte as nat / pow2(bit as nat)) % 2 == 1,
{
    let mask: u8 = 1u8 << bit;
    assert(mask != 0 && ((byte & mask != 0) <==> (byte / mask) % 2 == 1)) by (bit_vector)
        requires
            bit <= 7,
            mask == 1u8 << bit,
    ;
    assert(mask == pow2(bit as nat)) by {
        lemma2_to64();
        assert(1u8 << 0u16 == 1 && 1u8 << 1u16 == 2 && 1u8 << 2u16 == 4 && 1u8 << 3u16 == 8
            && 1u8 << 4u16 == 16 && 1u8 << 5u16 == 32 && 1u8 << 6u16 == 64 && 1u8 << 7u16
            == 128) by (bit_vector);
    }
}

/// A flag whose byte is exactly the mask of its bit decodes to `true`.
pub proof fn lemma_flag_of_mask(raw: Seq<u8>, register: Register)
    requires
        register.data_type == DataType::BOOL,
        register.addr matches RegAddress::Bit(a) && a.wf(),
        raw.len() >= 1,
        raw[0] == 1u8 << register.addr->Bit_0.bit,
    ensures
        decoded(raw, register) == Ok::<RegisterValue, S7Error>(RegisterValue::Boolean(true)),
{
    let byte = raw[0];
    let bit = register.addr->Bit_0.bit;
    assert(byte & (1u8 << bit) != 0) by (bit_vector)
        requires
            bit <= 7,
            byte == 1u8 << bit,
    ;
}

/// A flag whose byte is zero decodes to `false`.
pub proof fn lemma_flag_of_zero(raw: Seq<u8>, register: Register)
    requires
        register.data_type == DataType::BOOL,
        register.addr matches RegAddress::Bit(a) && a.wf(),
        raw.len() >= 1,
        raw[0] == 0,
    ensures
        decoded(raw, register) == Ok::<RegisterValue, S7Error>(RegisterValue::Boolean(false)),
{
    let bit = register.addr->Bit_0.bit;
    assert(0u8 & (1u8 << bit) == 0) by (bit_vector);
}

/// A flag depends on its own bit alone: with that bit set the byte decodes
/// to `true`, with it cleared to `false`, whatever the other seven bits of
/// `others` are.
pub proof fn lemma_flag_ignores_other_bits(raw: Seq<u8>, register: Register, others: u8)
    requires
        register.data_type == DataType::BOOL,
        register.addr matches RegAddress::Bit(a) && a.wf(),
        raw.len() >= 1,
    ensures
        raw[0] == others | (1u8 << register.addr->Bit_0.bit)
            ==> decoded(raw, register)
                == Ok::<RegisterValue, S7Error>(RegisterValue::Boolean(true)),
        raw[0] == others & !(1u8 << register.addr->Bit_0.bit)
            ==> decoded(raw, register)
                == Ok::<RegisterValue, S7Error>(RegisterValue::Boolean(false)),
{
    let bit = register.addr->Bit_0.bit;
    assert((others | (1u8 << bit)) & (1u8 << bit) != 0) by (bit_vector)
        requires
            bit <= 7,
    ;
    assert((others & !(1u8 << bit)) & (1u8 << bit) == 0) by (bit_vector);
}

/// A flag declared at a byte address is turned away as an invalid
/// definition, whatever the bytes are, none at all included.
pub proof fn lemma_flag_at_byte_address_rejected(raw: Seq<u8>, register: Register)
    requires
        register.data_type == DataType::BOOL,
        register.addr is Byte,
    ensures
        decoded(raw, register) == Err::<RegisterValue, S7Error>(S7Error::InvalidRegisterValue),
{
}

/// For a decodable definition, fewer bytes than the data type's width are a
/// length mismatch.
pub proof fn lemma_short_buffer_rejected(raw: Seq<u8>, register: Register)
    requires
        register.decodable(),
        raw.len() < width(register.data_type),
    ensures
        decoded(raw, register)
            == Err::<RegisterValue, S7Error>(S7Error::MismatchedRegisterLengthError),
{
}

/// A flag is read from the first byte alone: what follows it changes
/// nothing, and one byte is enough for a decodable flag to succeed.
pub proof fn lemma_flag_reads_first_byte_only(raw: Seq<u8>, register: Register)
    requires
        register.data_type == DataType::BOOL,
        raw.len() >= 1,
    ensures
        decoded(raw, register) == decoded(raw.take(1), register),
        register.decodable() ==> decoded(raw, register) is Ok,
{
}

/// A number is read from exactly its width: more bytes are a length
/// mismatch just as fewer are, and nothing is cut off to make them fit.
pub proof fn lemma_number_needs_exact_length(raw: Seq<u8>, register: Register)
    requires
        register.data_type != DataType::BOOL,
    ensures
        raw.len() != width(register.data_type)
            ==> decoded(raw, register)
                == Err::<RegisterValue, S7Error>(S7Error::MismatchedRegisterLengthError),
        raw.len() == width(register.data_type) ==> decoded(raw, register) is Ok,
{
}

/// A well-formed definition is never turned away as invalid: it decodes
/// whenever the length fits.
pub proof fn lemma_well_formed_register_decodes(raw: Seq<u8>, register: Register)
    requires
        register.wf(),
    ensures
        register.decodable(),
        decoded(raw, register) is Ok <==> length_fits(register.data_type, raw.len()),
{
}

} // verus!
