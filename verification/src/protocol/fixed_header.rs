//! The fixed header present at the front of every packet: the packet kind,
//! the four raw flag bits, and the remaining length.
use super::control_packet_type::ControlPacketType;
use vstd::prelude::*;

verus! {

/// The decoded fixed header. `bit_0` through `bit_3` are the four low flag
/// bits of the first byte (`bit_k` is the bit of weight `1 << k`); their
/// meaning depends on the packet kind. `remaining_length` is the byte count
/// of everything after the fixed header, at most 268435455.
#[derive(Clone, Copy, Debug, PartialEq, Eq, Structural)]
pub struct FixedHeader {
    pub control_type: ControlPacketType,
    pub bit_0: bool,
    pub bit_1: bool,
    pub bit_2: bool,
    pub bit_3: bool,
    pub remaining_length: u32,
}

/// The part of the fixed header decoded from its first byte alone: the
/// packet kind and the four flag bits.
#[derive(Clone, Copy, Debug, PartialEq, Eq, Structural)]
pub struct FirstByteData {
    pub control_type: ControlPacketType,
    pub bit_0: bool,
    pub bit_1: bool,
    pub bit_2: bool,
    pub bit_3: bool,
}

impl FixedHeader {
    /// Joins the first-byte fields with the decoded remaining length.
    pub fn from_first_byte_data(first_byte: FirstByteData, remaining_length: u32) -> (h:
        FixedHeader)
        ensures
            h == (FixedHeader {
                control_type: first_byte.control_type,
                bit_0: first_byte.bit_0,
                bit_1: first_byte.bit_1,
                bit_2: first_byte.bit_2,
                bit_3: first_byte.bit_3,
                remaining_length,
            }),
    {
        FixedHeader {
            control_type: first_byte.control_type,
            bit_0: first_byte.bit_0,
            bit_1: first_byte.bit_1,
            bit_2: first_byte.bit_2,
            bit_3: first_byte.bit_3,
            remaining_length,
        }
    }
}

} // verus!
