use tcp_extract::address::Address;
use tcp_extract::extract::{extract, extract_into, payload_length, write_data, ExtractError};
use tcp_extract::header::{IpHeader, IpHeaderError, TcpHeader, TcpHeaderError};

/// A fixed IPv4 header with the given length field and total length.
fn ip_header(ihl: u8, total: u16) -> Vec<u8> {
    let mut h = vec![0u8; 20];
    h[0] = 0x40 | ihl;
    h[2] = (total >> 8) as u8;
    h[3] = (total & 0xff) as u8;
    h[12..16].copy_from_slice(&[10, 0, 0, 1]);
    h[16..20].copy_from_slice(&[192, 168, 1, 1]);
    h
}

/// A fixed TCP header with the given data offset.
fn tcp_header(offset: u8) -> Vec<u8> {
    let mut h = vec![0u8; 20];
    h[0] = 0x1f;
    h[12] = offset << 4 | 0x03;
    h
}

/// A whole record with the given option bytes and payload.
fn record(ip_options: &[u8], tcp_options: &[u8], payload: &[u8]) -> Vec<u8> {
    let ihl = 5 + (ip_options.len() / 4) as u8;
    let offset = 5 + (tcp_options.len() / 4) as u8;
    let total = (40 + ip_options.len() + tcp_options.len() + payload.len()) as u16;
    let mut r = ip_header(ihl, total);
    r.extend_from_slice(ip_options);
    r.extend_from_slice(&tcp_header(offset));
    r.extend_from_slice(tcp_options);
    r.extend_from_slice(payload);
    r
}

#[test]
fn plain_record_yields_its_payload() {
    let payload: Vec<u8> = (0u8..=200).collect();
    let input = record(&[], &[], &payload);
    assert_eq!(extract(&input), Ok(payload));
}

#[test]
fn ip_options_are_skipped_whatever_they_hold() {
    let payload = b"hello, world".to_vec();
    let a = record(&[0u8; 8], &[], &payload);
    let b = record(&[0xffu8, 1, 2, 3, 4, 5, 6, 7], &[], &payload);
    assert_eq!(a[0] & 0x0f, 7);
    let mut pos: usize = 0;
    let h = IpHeader::read_from(&a, &mut pos).unwrap();
    assert_eq!(h.header_length_words, 7);
    assert_eq!(pos, 28);
    assert_eq!(extract(&a), Ok(payload.clone()));
    assert_eq!(extract(&b), Ok(payload));
}

#[test]
fn tcp_options_are_skipped() {
    let payload = b"xyz".to_vec();
    let input = record(&[], &[9u8; 12], &payload);
    let mut pos: usize = 20;
    let h = TcpHeader::read_from(&input, &mut pos).unwrap();
    assert_eq!(h.data_offset_words, 8);
    assert_eq!(pos, 52);
    assert_eq!(extract(&input), Ok(payload));
}

#[test]
fn empty_input_ends_cleanly() {
    assert_eq!(extract(&[]), Ok(Vec::new()));
    let mut pos: usize = 0;
    assert_eq!(IpHeader::read_from(&[], &mut pos), Err(IpHeaderError::Eof));
}

#[test]
fn ten_bytes_are_a_truncated_record() {
    let input = [0x45u8; 10];
    assert_eq!(extract(&input), Err(ExtractError::TruncatedIpHeader));
    let mut pos: usize = 0;
    assert_eq!(IpHeader::read_from(&input, &mut pos), Err(IpHeaderError::UnexpectedEof));
    assert_eq!(pos, 0);
}

#[test]
fn two_records_give_both_payloads_in_order() {
    let mut input = record(&[], &[], b"first ");
    input.extend(record(&[1, 2, 3, 4], &[5, 6, 7, 8], b"second"));
    assert_eq!(extract(&input), Ok(b"first second".to_vec()));
}

#[test]
fn address_renders_dotted_decimal() {
    assert_eq!(Address::from_slice(&[192, 168, 1, 1]).to_string(), "192.168.1.1");
    assert_eq!(Address::zero().to_string(), "0.0.0.0");
    assert_eq!(Address(255, 10, 9, 100).to_string(), "255.10.9.100");
}

#[test]
fn many_records_round_trip() {
    let payloads: Vec<Vec<u8>> = (0..7u8)
        .map(|k| (0..(k as usize * 13)).map(|i| (i as u8).wrapping_mul(k + 1)).collect())
        .collect();
    let mut input = Vec::new();
    let mut expected = Vec::new();
    for (k, p) in payloads.iter().enumerate() {
        let ip_opts = vec![k as u8; 4 * (k % 3)];
        let tcp_opts = vec![0xaa; 4 * (k % 4)];
        input.extend(record(&ip_opts, &tcp_opts, p));
        expected.extend_from_slice(p);
    }
    assert_eq!(extract(&input), Ok(expected));
}

#[test]
fn ip_header_fields_are_decoded() {
    let h = ip_header(5, 0x0102);
    let mut pos: usize = 0;
    let ip = IpHeader::read_from(&h, &mut pos).unwrap();
    assert_eq!(ip.total_length, 258);
    assert_eq!(ip.header_length_words, 5);
    assert_eq!(ip.source_address, Address(10, 0, 0, 1));
    assert_eq!(ip.destination_address, Address(192, 168, 1, 1));
    assert_eq!(pos, 20);
}

#[test]
fn ip_options_past_end_fail() {
    let input = ip_header(9, 100);
    let mut pos: usize = 0;
    assert_eq!(IpHeader::read_from(&input, &mut pos), Err(IpHeaderError::OptionsPastEnd));
    assert_eq!(pos, 0);
    assert_eq!(extract(&input), Err(ExtractError::IpOptionsPastEnd));
}

#[test]
fn short_tcp_header_fails() {
    let mut input = ip_header(5, 50);
    input.extend_from_slice(&[0u8; 19]);
    assert_eq!(extract(&input), Err(ExtractError::TruncatedTcpHeader));
    let mut pos: usize = 20;
    assert_eq!(TcpHeader::read_from(&input, &mut pos), Err(TcpHeaderError::UnexpectedEof));
}

#[test]
fn tcp_options_past_end_fail() {
    let mut input = ip_header(5, 48);
    input.extend(tcp_header(7));
    input.extend_from_slice(&[0u8; 4]);
    assert_eq!(extract(&input), Err(ExtractError::TcpOptionsPastEnd));
}

#[test]
fn total_length_below_headers_fails() {
    let mut input = ip_header(5, 39);
    input.extend(tcp_header(5));
    assert_eq!(extract(&input), Err(ExtractError::LengthUnderflow));
}

#[test]
fn short_payload_fails_after_earlier_output() {
    let mut input = record(&[], &[], b"kept");
    let mut bad = record(&[], &[], b"0123456789");
    bad.truncate(bad.len() - 3);
    input.extend(bad);
    let mut out = b">".to_vec();
    assert_eq!(extract_into(&input, &mut out), Err(ExtractError::TruncatedPayload));
    assert_eq!(out, b">kept".to_vec());
    assert_eq!(extract(&input), Err(ExtractError::TruncatedPayload));
}

#[test]
fn zero_length_payload_copies_nothing() {
    let mut input = record(&[], &[], &[]);
    input.extend(record(&[], &[], b"z"));
    assert_eq!(extract(&input), Ok(b"z".to_vec()));
}

#[test]
fn payload_length_values() {
    assert_eq!(payload_length(40, 5, 5), Some(0));
    assert_eq!(payload_length(1500, 5, 5), Some(1460));
    assert_eq!(payload_length(1500, 7, 8), Some(1440));
    assert_eq!(payload_length(65535, 15, 15), Some(65415));
    assert_eq!(payload_length(39, 5, 5), None);
}

#[test]
fn write_data_copies_or_refuses() {
    let input = [1u8, 2, 3, 4, 5];
    let mut out = vec![9u8];
    let mut pos: usize = 1;
    assert_eq!(write_data(&input, &mut pos, 3, &mut out), Ok(()));
    assert_eq!(out, vec![9, 2, 3, 4]);
    assert_eq!(pos, 4);
    assert_eq!(write_data(&input, &mut pos, 2, &mut out), Err(ExtractError::TruncatedPayload));
    assert_eq!(out, vec![9, 2, 3, 4]);
    assert_eq!(pos, 4);
}

#[test]
fn ip_header_error_names() {
    assert_eq!(IpHeaderError::Eof.as_str(), "EOF");
    assert_eq!(IpHeaderError::UnexpectedEof.as_str(), "UnexpectedEOF");
    assert_eq!(IpHeaderError::OptionsPastEnd.as_str(), "OptionsPastEnd");
}
