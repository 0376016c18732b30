//! The extraction loop: record after record, both headers are read, the
//! payload length is computed from their fields, and that many bytes are
//! copied to the output.
//!
//! A total length smaller than the two headers' sizes is refused as a
//! malformed record rather than clamped.

use vstd::prelude::*;
use vstd::slice::slice_subrange;
use crate::header::{
    parse_ip, parse_tcp, IpHeader, IpHeaderError, TcpHeader, TcpHeaderError,
};

verus! {

/// Why a run of the extraction stopped before a clean end of the input.
#[derive(Clone, Copy, Debug, PartialEq, Eq, Structural)]
pub enum ExtractError {
    /// Between 1 and 19 bytes were left where an IPv4 header was due.
    TruncatedIpHeader,
    /// The IPv4 options ran past the end of the input.
    IpOptionsPastEnd,
    /// Fewer than 20 bytes were left where a TCP header was due.
    TruncatedTcpHeader,
    /// The TCP options ran past the end of the input.
    TcpOptionsPastEnd,
    /// The total length was smaller than the two headers' sizes.
    LengthUnderflow,
    /// Fewer payload bytes were left than the headers announce.
    TruncatedPayload,
}

/// The payload length `total − 4·ihl − 4·offset`, or `None` where it would be
/// negative.
pub open spec fn payload_len_spec(total_length: u16, ihl: u8, data_offset: u8) -> Option<nat> {
    let headers = 4 * ihl + 4 * data_offset;
    if total_length >= headers {
        Some((total_length - headers) as nat)
    } else {
        None
    }
}

/// Extraction over the bytes `s`: the output it writes and how it ends.
pub open spec fn extract_spec(s: Seq<u8>) -> (Seq<u8>, Result<(), ExtractError>)
    decreases s.len(),
{
    match parse_ip(s) {
        Err(IpHeaderError::Eof) => (seq![], Ok(())),
        Err(IpHeaderError::UnexpectedEof) => (seq![], Err(ExtractError::TruncatedIpHeader)),
        Err(IpHeaderError::OptionsPastEnd) => (seq![], Err(ExtractError::IpOptionsPastEnd)),
        Ok((ip, n1)) => {
            let s1 = s.subrange(n1 as int, s.len() as int);
            match parse_tcp(s1) {
                Err(TcpHeaderError::UnexpectedEof) => (seq![], Err(ExtractError::TruncatedTcpHeader)),
                Err(TcpHeaderError::OptionsPastEnd) => (seq![], Err(ExtractError::TcpOptionsPastEnd)),
                Ok((tcp, n2)) => {
                    let s2 = s1.subrange(n2 as int, s1.len() as int);
                    match payload_len_spec(ip.total_length, ip.header_length_words, tcp.data_offset_words) {
                        None => (seq![], Err(ExtractError::LengthUnderflow)),
                        Some(p) => if p > s2.len() {
                            (seq![], Err(ExtractError::TruncatedPayload))
                        } else {
                            let rest = extract_spec(s2.subrange(p as int, s2.len() as int));
                            (s2.subrange(0, p as int) + rest.0, rest.1)
                        },
                    }
                },
            }
        },
    }
}

/// The payload length of a record with these header fields, or `None` where
/// the total length is smaller than the two headers' sizes.
pub fn payload_length(total_length: u16, header_length_words: u8, data_offset_words: u8) -> (r: Option<u16>)
    ensures
        match payload_len_spec(total_length, header_length_words, data_offset_words) {
            Some(p) => r is Some && r->Some_0 == p,
            None => r is None,
        },
{
    let headers: u32 = 4 * header_length_words as u32 + 4 * data_offset_words as u32;
    if total_length as u32 >= headers {
        Some((total_length as u32 - headers) as u16)
    } else {
        None
    }
}

/// Copies the `len` bytes of `input` at `*pos` to the end of `out` and moves
/// `*pos` past them. Where fewer are left, copies nothing and leaves `*pos`.
pub fn write_data(input: &[u8], pos: &mut usize, len: usize, out: &mut Vec<u8>) -> (r: Result<(), ExtractError>)
    requires
        *old(pos) <= input@.len(),
    ensures
        if *old(pos) + len <= input@.len() {
            &&& r is Ok
            &&& *final(pos) == *old(pos) + len
            &&& final(out)@ == old(out)@ + input@.subrange(*old(pos) as int, *old(pos) + len)
        } else {
            &&& r == Err::<(), ExtractError>(ExtractError::TruncatedPayload)
            &&& *final(pos) == *old(pos)
            &&& final(out)@ == old(out)@
        },
{
    let start = *pos;
    if len > input.len() - start {
        return Err(ExtractError::TruncatedPayload);
    }
    let data = slice_subrange(input, start, start + len);
    let mut i: usize = 0;
    while i < len
        invariant
            i <= len,
            start + len <= input@.len(),
            data@.len() == len,
            data@ == input@.subrange(start as int, start + len),
            out@ == old(out)@ + data@.subrange(0, i as int),
        decreases len - i,
    {
        out.push(data[i]);
        i = i + 1;
        assert(out@ =~= old(out)@ + data@.subrange(0, i as int));
    }
    assert(data@.subrange(0, len as int) =~= data@);
    *pos = start + len;
    Ok(())
}

/// Runs the extraction over `input`, appending each record's payload to
/// `out`. On an error, what was appended before it stays in `out`.
pub fn extract_into(input: &[u8], out: &mut Vec<u8>) -> (r: Result<(), ExtractError>)
    ensures
        final(out)@ == old(out)@ + extract_spec(input@).0,
        r == extract_spec(input@).1,
{
    let mut pos: usize = 0;
    assert(input@.subrange(0, input@.len() as int) =~= input@);
    loop
        invariant
            pos <= input@.len(),
            old(out)@ + extract_spec(input@).0
                == out@ + extract_spec(input@.subrange(pos as int, input@.len() as int)).0,
            extract_spec(input@).1 == extract_spec(input@.subrange(pos as int, input@.len() as int)).1,
        decreases input@.len() - pos,
    {
        let ghost s = input@.subrange(pos as int, input@.len() as int);
        let ghost at_ip = pos;
        let ip = match IpHeader::read_from(input, &mut pos) {
            Ok(h) => h,
            Err(IpHeaderError::Eof) => {
                return Ok(());
            },
            Err(IpHeaderError::UnexpectedEof) => {
                return Err(ExtractError::TruncatedIpHeader);
            },
            Err(IpHeaderError::OptionsPastEnd) => {
                return Err(ExtractError::IpOptionsPastEnd);
            },
        };
        let ghost s1 = input@.subrange(pos as int, input@.len() as int);
        assert(s1 =~= s.subrange(pos - at_ip, s.len() as int));
        let ghost at_tcp = pos;
        let tcp = match TcpHeader::read_from(input, &mut pos) {
            Ok(h) => h,
            Err(TcpHeaderError::UnexpectedEof) => {
                return Err(ExtractError::TruncatedTcpHeader);
            },
            Err(TcpHeaderError::OptionsPastEnd) => {
                return Err(ExtractError::TcpOptionsPastEnd);
            },
        };
        let ghost s2 = input@.subrange(pos as int, input@.len() as int);
        assert(s2 =~= s1.subrange(pos - at_tcp, s1.len() as int));
        let len = match payload_length(ip.total_length, ip.header_length_words, tcp.data_offset_words) {
            Some(n) => n,
            None => {
                return Err(ExtractError::LengthUnderflow);
            },
        };
        let ghost at_payload = pos;
        let ghost before = out@;
        match write_data(input, &mut pos, len as usize, out) {
            Ok(()) => {},
            Err(e) => {
                return Err(e);
            },
        }
        proof {
            let rest = input@.subrange(pos as int, input@.len() as int);
            assert(rest =~= s2.subrange(len as int, s2.len() as int));
            assert(input@.subrange(at_payload as int, at_payload + len) =~= s2.subrange(0, len as int));
            assert(before + (s2.subrange(0, len as int) + extract_spec(rest).0)
                =~= out@ + extract_spec(rest).0);
        }
    }
}

/// The payloads of all records of `input`, in order, or the error that
/// stopped the extraction.
pub fn extract(input: &[u8]) -> (r: Result<Vec<u8>, ExtractError>)
    ensures
        match extract_spec(input@).1 {
            Ok(()) => r is Ok && r->Ok_0@ == extract_spec(input@).0,
            Err(e) => r == Err::<Vec<u8>, ExtractError>(e),
        },
{
    let mut out: Vec<u8> = Vec::new();
    let r = extract_into(input, &mut out);
    assert(out@ =~= extract_spec(input@).0);
    match r {
        Ok(()) => Ok(out),
        Err(e) => Err(e),
    }
}

} // verus!
