//! The fixed parts of the IPv4 and TCP headers, and the option bytes that
//! follow them.
//!
//! Field layout read here (byte offsets within the fixed 20-byte part):
//!
//! | header | offset | field                                        |
//! |--------|--------|----------------------------------------------|
//! | IPv4   | 0      | low nibble: header length in 32-bit words    |
//! | IPv4   | 2..4   | total length, big-endian                     |
//! | IPv4   | 12..16 | source address                               |
//! | IPv4   | 16..20 | destination address                          |
//! | TCP    | 12     | high nibble: data offset in 32-bit words     |

use vstd::prelude::*;
use vstd::slice::slice_subrange;
use byteorder::{ByteOrder, NetworkEndian};
use crate::address::Address;

verus! {

/// Length of the fixed part of an IPv4 header, and of a TCP header.
pub const FIXED_HEADER_LEN: usize = 20;

/// Smallest header length, in 32-bit words, of either header.
pub const MIN_HEADER_WORDS: u8 = 5;

/// Mask of the IPv4 header-length nibble in byte 0.
pub const IHL_MASK: u8 = 0x0f;

/// Mask and shift of the TCP data-offset nibble in byte 12.
pub const DATA_OFFSET_MASK: u8 = 0xf0;
pub const DATA_OFFSET_SHIFT: u8 = 4;

pub const TOTAL_LENGTH_AT: usize = 2;
pub const SOURCE_AT: usize = 12;
pub const DESTINATION_AT: usize = 16;
pub const DATA_OFFSET_AT: usize = 12;

/// The big-endian 16-bit value of the bytes `hi`, `lo`.
pub open spec fn be_u16(hi: u8, lo: u8) -> u16 {
    (hi as int * 256 + lo as int) as u16
}

/// Number of option bytes after a fixed header whose length field is `words`.
pub open spec fn option_len(words: u8) -> nat {
    if words > 5 {
        (4 * (words - 5)) as nat
    } else {
        0
    }
}

/// The fields of an IPv4 header that the extraction reads.
#[derive(Clone, Copy, Debug, PartialEq, Eq, Structural)]
pub struct IpHeader {
    pub header_length_words: u8,
    pub total_length: u16,
    pub source_address: Address,
    pub destination_address: Address,
}

/// Why no IPv4 header could be read.
#[derive(Clone, Copy, Debug, PartialEq, Eq, Structural)]
pub enum IpHeaderError {
    /// No byte was left: the stream ended cleanly between records.
    Eof,
    /// Between 1 and 19 bytes were left.
    UnexpectedEof,
    /// The options that the header length announces run past the end.
    OptionsPastEnd,
}

/// The header held by the first 20 bytes of `b`.
pub open spec fn decode_ip(b: Seq<u8>) -> IpHeader {
    IpHeader {
        header_length_words: b[0] % 16,
        total_length: be_u16(b[2], b[3]),
        source_address: Address(b[12], b[13], b[14], b[15]),
        destination_address: Address(b[16], b[17], b[18], b[19]),
    }
}

/// Reading an IPv4 header from the bytes `s`: the header and the number of
/// bytes it takes with its options, or why it cannot be read.
pub open spec fn parse_ip(s: Seq<u8>) -> Result<(IpHeader, nat), IpHeaderError> {
    if s.len() == 0 {
        Err(IpHeaderError::Eof)
    } else if s.len() < 20 {
        Err(IpHeaderError::UnexpectedEof)
    } else {
        let h = decode_ip(s);
        let n = 20 + option_len(h.header_length_words);
        if n <= s.len() {
            Ok((h, n))
        } else {
            Err(IpHeaderError::OptionsPastEnd)
        }
    }
}

/// The fields of a TCP header that the extraction reads.
#[derive(Clone, Copy, Debug, PartialEq, Eq, Structural)]
pub struct TcpHeader {
    pub data_offset_words: u8,
}

/// Why no TCP header could be read.
#[derive(Clone, Copy, Debug, PartialEq, Eq, Structural)]
pub enum TcpHeaderError {
    /// Fewer than 20 bytes were left.
    UnexpectedEof,
    /// The options that the data offset announces run past the end.
    OptionsPastEnd,
}

/// The header held by the first 20 bytes of `b`.
pub open spec fn decode_tcp(b: Seq<u8>) -> TcpHeader {
    TcpHeader { data_offset_words: b[12] / 16 }
}

/// Reading a TCP header from the bytes `s`: the header and the number of
/// bytes it takes with its options, or why it cannot be read.
pub open spec fn parse_tcp(s: Seq<u8>) -> Result<(TcpHeader, nat), TcpHeaderError> {
    if s.len() < 20 {
        Err(TcpHeaderError::UnexpectedEof)
    } else {
        let h = decode_tcp(s);
        let n = 20 + option_len(h.data_offset_words);
        if n <= s.len() {
            Ok((h, n))
        } else {
            Err(TcpHeaderError::OptionsPastEnd)
        }
    }
}

/// Relies on byteorder's `BigEndian::read_u16` (network order): it reads the
/// first two bytes of `buf`, the first one as the high byte.
#[verifier::external_body]
fn read_be_u16(buf: &[u8]) -> (r: u16)
    requires
        buf@.len() >= 2,
    ensures
        r == be_u16(buf@[0], buf@[1]),
{
    NetworkEndian::read_u16(buf)
}

/// The number of option bytes that follow a fixed header of length field `words`.
fn options_after(words: u8) -> (r: usize)
    ensures
        r == option_len(words),
{
    if words > MIN_HEADER_WORDS {
        4 * (words - MIN_HEADER_WORDS) as usize
    } else {
        0
    }
}

impl IpHeader {
    /// Reads an IPv4 header from `input` at `*pos` and moves `*pos` past it
    /// and its options. On an error `*pos` is left as it was.
    pub fn read_from(input: &[u8], pos: &mut usize) -> (r: Result<IpHeader, IpHeaderError>)
        requires
            *old(pos) <= input@.len(),
        ensures
            match parse_ip(input@.subrange(*old(pos) as int, input@.len() as int)) {
                Ok((h, n)) => r == Ok::<IpHeader, IpHeaderError>(h) && *final(pos) == *old(pos) + n,
                Err(e) => r == Err::<IpHeader, IpHeaderError>(e) && *final(pos) == *old(pos),
            },
    {
        let start = *pos;
        let left = input.len() - start;
        if left == 0 {
            return Err(IpHeaderError::Eof);
        } else if left < FIXED_HEADER_LEN {
            return Err(IpHeaderError::UnexpectedEof);
        }
        let bytes = slice_subrange(input, start, start + FIXED_HEADER_LEN);
        let b0 = bytes[0];
        let ihl = b0 & IHL_MASK;
        assert(b0 & 0x0f == b0 % 16) by (bit_vector);
        let h = IpHeader {
            header_length_words: ihl,
            total_length: read_be_u16(slice_subrange(bytes, TOTAL_LENGTH_AT, TOTAL_LENGTH_AT + 2)),
            source_address: Address::from_slice(slice_subrange(bytes, SOURCE_AT, SOURCE_AT + 4)),
            destination_address: Address::from_slice(
                slice_subrange(bytes, DESTINATION_AT, DESTINATION_AT + 4),
            ),
        };
        let skip = options_after(ihl);
        if skip > left - FIXED_HEADER_LEN {
            return Err(IpHeaderError::OptionsPastEnd);
        }
        *pos = start + FIXED_HEADER_LEN + skip;
        Ok(h)
    }
}

impl IpHeaderError {
    /// A short name of the error.
    pub fn as_str(&self) -> (r: &'static str)
        ensures
            r@ == match self {
                IpHeaderError::Eof => "EOF"@,
                IpHeaderError::UnexpectedEof => "UnexpectedEOF"@,
                IpHeaderError::OptionsPastEnd => "OptionsPastEnd"@,
            },
    {
        match self {
            IpHeaderError::Eof => "EOF",
            IpHeaderError::UnexpectedEof => "UnexpectedEOF",
            IpHeaderError::OptionsPastEnd => "OptionsPastEnd",
        }
    }
}

impl TcpHeader {
    /// Reads a TCP header from `input` at `*pos` and moves `*pos` past it and
    /// its options. On an error `*pos` is left as it was.
    pub fn read_from(input: &[u8], pos: &mut usize) -> (r: Result<TcpHeader, TcpHeaderError>)
        requires
            *old(pos) <= input@.len(),
        ensures
            match parse_tcp(input@.subrange(*old(pos) as int, input@.len() as int)) {
                Ok((h, n)) => r == Ok::<TcpHeader, TcpHeaderError>(h) && *final(pos) == *old(pos) + n,
                Err(e) => r == Err::<TcpHeader, TcpHeaderError>(e) && *final(pos) == *old(pos),
            },
    {
        let start = *pos;
        let left = input.len() - start;
        if left < FIXED_HEADER_LEN {
            return Err(TcpHeaderError::UnexpectedEof);
        }
        let b12 = input[start + DATA_OFFSET_AT];
        let data_offset = (b12 & DATA_OFFSET_MASK) >> DATA_OFFSET_SHIFT;
        assert((b12 & 0xf0) >> 4u8 == b12 / 16) by (bit_vector);
        let h = TcpHeader { data_offset_words: data_offset };
        let skip = options_after(data_offset);
        if skip > left - FIXED_HEADER_LEN {
            return Err(TcpHeaderError::OptionsPastEnd);
        }
        *pos = start + FIXED_HEADER_LEN + skip;
        Ok(h)
    }
}

} // verus!
