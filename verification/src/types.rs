//! Register definitions: data types, addresses, and decoded values.

use vstd::prelude::*;

verus! {

/// How the raw bytes of a register are to be read.
#[derive(Debug, Clone, Copy, PartialEq, Eq, Structural)]
pub enum DataType {
    /// One flag, packed into a byte.
    BOOL,
    /// IEEE-754 single precision, four bytes.
    FLOAT,
    /// Two's-complement signed integer, four bytes.
    INT32,
    /// Two's-complement signed integer, two bytes.
    INT16,
}

/// A decoded register.
///
/// `Float32` carries the IEEE-754 single-precision bit pattern of the value,
/// the one that `f32::from_bits` takes. Every pattern is a value, NaN and the
/// infinities included.
#[derive(Debug, Clone, Copy, PartialEq, Eq, Structural)]
pub enum RegisterValue {
    S16(i16),
    S32(i32),
    Float32(u32),
    Boolean(bool),
}

/// Where a register lives in controller memory.
#[derive(Debug, Clone, Copy, PartialEq, Eq, Structural)]
pub enum RegAddress {
    Byte(ByteAddress),
    Bit(BitAddress),
}

/// One bit of one byte of a data block.
#[derive(Debug, Clone, Copy, PartialEq, Eq, Structural)]
pub struct BitAddress {
    pub db: u16,
    pub byte: u16,
    pub bit: u16,
}

/// One byte-aligned location of a data block.
#[derive(Debug, Clone, Copy, PartialEq, Eq, Structural)]
pub struct ByteAddress {
    pub db: u16,
    pub byte: u16,
}

/// A named, typed location in controller memory.
#[derive(Debug, Clone)]
pub struct Register {
    pub data_type: DataType,
    pub name: String,
    pub addr: RegAddress,
}

impl BitAddress {
    /// A byte has eight bits, numbered 0 to 7.
    pub open spec fn wf(self) -> bool {
        self.bit <= 7
    }
}

impl From<ByteAddress> for RegAddress {
    fn from(value: ByteAddress) -> (ret: RegAddress)
        ensures
            ret == RegAddress::Byte(value),
    {
        RegAddress::Byte(value)
    }
}

impl vstd::std_specs::convert::FromSpecImpl<ByteAddress> for RegAddress {
    open spec fn obeys_from_spec() -> bool {
        true
    }

    open spec fn from_spec(value: ByteAddress) -> RegAddress {
        RegAddress::Byte(value)
    }
}

impl From<BitAddress> for RegAddress {
    fn from(value: BitAddress) -> (ret: RegAddress)
        ensures
            ret == RegAddress::Bit(value),
    {
        RegAddress::Bit(value)
    }
}

impl vstd::std_specs::convert::FromSpecImpl<BitAddress> for RegAddress {
    open spec fn obeys_from_spec() -> bool {
        true
    }

    open spec fn from_spec(value: BitAddress) -> RegAddress {
        RegAddress::Bit(value)
    }
}

impl RegAddress {
    /// A bit address names one of the eight bits of its byte.
    pub open spec fn wf(self) -> bool {
        self matches RegAddress::Bit(a) ==> a.wf()
    }
}

impl Register {
    /// A flag lives at a bit address, a number at a byte address.
    pub open spec fn wf(self) -> bool {
        &&& self.addr.wf()
        &&& self.data_type == DataType::BOOL <==> self.addr is Bit
    }

    /// What decoding asks of a definition. A flag needs a bit address that
    /// names one of the eight bits of a byte. A number is read from the bytes
    /// alone, so nothing is asked of its address.
    pub open spec fn decodable(self) -> bool {
        self.data_type == DataType::BOOL ==> self.addr is Bit && self.addr.wf()
    }
}

} // verus!
