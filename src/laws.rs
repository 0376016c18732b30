//! What the extraction does on inputs built from well-formed records.

use vstd::prelude::*;
use crate::header::{
    be_u16, decode_ip, decode_tcp, option_len, parse_ip, parse_tcp, IpHeaderError, TcpHeaderError,
};
use crate::extract::{extract_spec, payload_len_spec, ExtractError};

verus! {

/// The parts of one record, as bytes: the fixed IPv4 header, its options, the
/// fixed TCP header, its options, and the payload.
pub struct RecordBytes {
    pub ip: Seq<u8>,
    pub ip_options: Seq<u8>,
    pub tcp: Seq<u8>,
    pub tcp_options: Seq<u8>,
    pub payload: Seq<u8>,
}

impl RecordBytes {
    /// The IPv4 header length field of the record.
    pub open spec fn ihl(self) -> u8 {
        self.ip[0] % 16
    }

    /// The TCP data offset field of the record.
    pub open spec fn data_offset(self) -> u8 {
        self.tcp[12] / 16
    }

    /// Both fixed headers are 20 bytes, both length fields are at least 5 and
    /// match the option bytes present, and the total length covers exactly
    /// the two headers and the payload.
    pub open spec fn valid(self) -> bool {
        &&& self.ip.len() == 20
        &&& self.tcp.len() == 20
        &&& self.ihl() >= 5
        &&& self.data_offset() >= 5
        &&& self.ip_options.len() == option_len(self.ihl())
        &&& self.tcp_options.len() == option_len(self.data_offset())
        &&& be_u16(self.ip[2], self.ip[3]) == 4 * self.ihl() + 4 * self.data_offset()
            + self.payload.len()
    }

    /// The record as it stands in the input.
    pub open spec fn bytes(self) -> Seq<u8> {
        self.ip + self.ip_options + self.tcp + self.tcp_options + self.payload
    }
}

/// The records `rs` back to back.
pub open spec fn concat_records(rs: Seq<RecordBytes>) -> Seq<u8>
    decreases rs.len(),
{
    if rs.len() == 0 {
        seq![]
    } else {
        rs[0].bytes() + concat_records(rs.drop_first())
    }
}

/// The payloads of the records `rs`, in order.
pub open spec fn concat_payloads(rs: Seq<RecordBytes>) -> Seq<u8>
    decreases rs.len(),
{
    if rs.len() == 0 {
        seq![]
    } else {
        rs[0].payload + concat_payloads(rs.drop_first())
    }
}

/// A well-formed record followed by any bytes: its payload is written, and
/// the extraction goes on with the bytes after it.
pub proof fn lemma_record_then_rest(r: RecordBytes, rest: Seq<u8>)
    requires
        r.valid(),
    ensures
        extract_spec(r.bytes() + rest) == (r.payload + extract_spec(rest).0, extract_spec(rest).1),
{
    let s = r.bytes() + rest;
    let n1 = 20 + r.ip_options.len();
    assert(s.subrange(0, 20) =~= r.ip);
    assert(parse_ip(s) == Ok::<_, IpHeaderError>((decode_ip(r.ip), n1)));
    let s1 = s.subrange(n1 as int, s.len() as int);
    assert(s1 =~= r.tcp + r.tcp_options + r.payload + rest);
    let n2 = 20 + r.tcp_options.len();
    assert(parse_tcp(s1) == Ok::<_, TcpHeaderError>((decode_tcp(r.tcp), n2)));
    let s2 = s1.subrange(n2 as int, s1.len() as int);
    assert(s2 =~= r.payload + rest);
    let ip = decode_ip(r.ip);
    let tcp = decode_tcp(r.tcp);
    assert(payload_len_spec(ip.total_length, ip.header_length_words, tcp.data_offset_words)
        == Some(r.payload.len()));
    assert(s2.subrange(0, r.payload.len() as int) =~= r.payload);
    assert(s2.subrange(r.payload.len() as int, s2.len() as int) =~= rest);
}

/// A record with no options (header length 5, data offset 5) and total
/// length `40 + P` yields exactly its `P` payload bytes, unchanged.
pub proof fn lemma_plain_record(ip: Seq<u8>, tcp: Seq<u8>, payload: Seq<u8>)
    requires
        ip.len() == 20,
        tcp.len() == 20,
        ip[0] % 16 == 5,
        tcp[12] / 16 == 5,
        be_u16(ip[2], ip[3]) == 40 + payload.len(),
    ensures
        extract_spec(ip + tcp + payload) == (payload, Ok::<(), ExtractError>(())),
{
    let r = RecordBytes { ip, ip_options: seq![], tcp, tcp_options: seq![], payload };
    assert(r.bytes() + seq![] =~= ip + tcp + payload);
    lemma_record_then_rest(r, seq![]);
    assert(payload + seq![] =~= payload);
}

/// An IPv4 header whose length field is `ihl ≥ 5` is followed by exactly
/// `4·(ihl − 5)` option bytes (8 where `ihl` is 7), which the parser skips
/// whatever they hold: the header and the TCP header after them are read the
/// same, and so the extraction writes the same output.
pub proof fn lemma_ip_options_skipped(ip: Seq<u8>, options: Seq<u8>, other: Seq<u8>, rest: Seq<u8>)
    requires
        ip.len() == 20,
        ip[0] % 16 >= 5,
        options.len() == 4 * (ip[0] % 16 - 5),
        other.len() == options.len(),
    ensures
        parse_ip(ip + options + rest) == Ok::<_, IpHeaderError>(
            (decode_ip(ip), (20 + options.len()) as nat),
        ),
        extract_spec(ip + options + rest) == extract_spec(ip + other + rest),
{
    let s = ip + options + rest;
    let t = ip + other + rest;
    assert(s.subrange(0, 20) =~= ip);
    assert(t.subrange(0, 20) =~= ip);
    assert(s.subrange(20 + options.len() as int, s.len() as int) =~= rest);
    assert(t.subrange(20 + other.len() as int, t.len() as int) =~= rest);
}

/// For records `p1 .. pN` that are all well formed, the extraction over the
/// records back to back ends cleanly and writes `p1 ++ .. ++ pN`.
pub proof fn lemma_round_trip(rs: Seq<RecordBytes>)
    requires
        forall|i: int| 0 <= i < rs.len() ==> #[trigger] rs[i].valid(),
    ensures
        extract_spec(concat_records(rs)) == (concat_payloads(rs), Ok::<(), ExtractError>(())),
    decreases rs.len(),
{
    if rs.len() == 0 {
        assert(extract_spec(seq![]) == (Seq::<u8>::empty(), Ok::<(), ExtractError>(())));
    } else {
        let tail = rs.drop_first();
        assert forall|i: int| 0 <= i < tail.len() implies #[trigger] tail[i].valid() by {
            assert(tail[i] == rs[i + 1]);
        }
        lemma_round_trip(tail);
        lemma_record_then_rest(rs[0], concat_records(tail));
    }
}

} // verus!
