//! Extraction of TCP payloads from a flat stream of back-to-back IPv4/TCP
//! records: each record is an IP header (with options), a TCP header (with
//! options) and the payload that the IP total length leaves after both.

pub mod address;
pub mod header;
pub mod extract;
pub mod laws;
