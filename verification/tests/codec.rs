use torture::parser::{parse, parse_at_eof, HeaderParse};
use torture::trojan::{encode_request, Atype, Command, IpAddress, Request};

fn cred_u1() -> Vec<u8> {
    b"cd6adad373079744ca02ca27bc668760bed571059dceffcfc4261417".to_vec()
}

fn header_s1() -> Vec<u8> {
    let mut bytes = cred_u1();
    bytes.extend_from_slice(b"\r\n");
    bytes.push(0x01);
    bytes.push(0x01);
    bytes.extend_from_slice(&[127, 0, 0, 1]);
    bytes.extend_from_slice(&[0x1f, 0x90]);
    bytes.extend_from_slice(b"\r\n");
    bytes
}

#[test]
fn parse_happy_ipv4_header() {
    let mut bytes = header_s1();
    bytes.extend_from_slice(b"PING");
    match parse(&bytes) {
        HeaderParse::Complete(req, n) => {
            assert_eq!(n, 68);
            assert_eq!(req.get_hex(), cred_u1().as_slice());
            let reencoded = encode_request(&req);
            assert_eq!(reencoded, header_s1());
        }
        _ => panic!("expected a complete header"),
    }
}

#[test]
fn round_trip_ipv4() {
    let req = Request::new(
        vec![0x61; 56],
        Command::Connect,
        Atype::IPv4,
        IpAddress::V4(vec![10, 0, 0, 7]),
        443,
    );
    let bytes = encode_request(&req);
    match parse(&bytes) {
        HeaderParse::Complete(back, n) => {
            assert_eq!(n, bytes.len());
            assert_eq!(encode_request(&back), bytes);
        }
        _ => panic!("expected a complete header"),
    }
}

#[test]
fn round_trip_domain() {
    let req = Request::new(
        vec![0x30; 56],
        Command::Udp,
        Atype::Domain,
        IpAddress::Domain(b"example.com".to_vec()),
        53,
    );
    let bytes = encode_request(&req);
    match parse(&bytes) {
        HeaderParse::Complete(back, n) => {
            assert_eq!(n, bytes.len());
            assert_eq!(encode_request(&back), bytes);
        }
        _ => panic!("expected a complete header"),
    }
}

#[test]
fn round_trip_ipv6() {
    let mut octets = vec![0u8; 16];
    octets[15] = 1;
    let req = Request::new(
        vec![0x39; 56],
        Command::Connect,
        Atype::IPv6,
        IpAddress::V6(octets),
        8443,
    );
    let bytes = encode_request(&req);
    match parse(&bytes) {
        HeaderParse::Complete(back, n) => {
            assert_eq!(n, bytes.len());
            assert_eq!(encode_request(&back), bytes);
        }
        _ => panic!("expected a complete header"),
    }
}

#[test]
fn round_trip_longest_domain() {
    let req = Request::new(
        vec![0x66; 56],
        Command::Connect,
        Atype::Domain,
        IpAddress::Domain(vec![0x61; 255]),
        65535,
    );
    let bytes = encode_request(&req);
    assert_eq!(bytes.len(), 64 + 256);
    match parse(&bytes) {
        HeaderParse::Complete(back, n) => {
            assert_eq!(n, bytes.len());
            assert_eq!(encode_request(&back), bytes);
        }
        _ => panic!("expected a complete header"),
    }
}

#[test]
fn short_buffer_is_incomplete() {
    // 55 arbitrary bytes, then CR: nothing wrong yet, but nothing complete.
    let mut bytes = vec![0x41u8; 55];
    bytes.push(0x0d);
    assert!(matches!(parse(&bytes), HeaderParse::Incomplete));
}

#[test]
fn malformed_header_55_bytes_then_crlf() {
    // 55 bytes then CRLF: the CRLF sits one byte early, so the byte at
    // index 56 cannot open the separator.
    let mut bytes = vec![0x41u8; 55];
    bytes.extend_from_slice(b"\r\n");
    assert!(matches!(parse(&bytes), HeaderParse::Malformed));
    let r = parse_at_eof(&bytes);
    assert_eq!(r.unwrap_err(), torture::error::ConnError::Malformed);
}

#[test]
fn eof_inside_header_is_malformed() {
    let bytes = vec![0x41u8; 30];
    assert!(matches!(parse(&bytes), HeaderParse::Incomplete));
    let r = parse_at_eof(&bytes);
    assert_eq!(r.unwrap_err(), torture::error::ConnError::Malformed);
}

#[test]
fn unknown_command_is_malformed() {
    let mut bytes = vec![0x41u8; 56];
    bytes.extend_from_slice(b"\r\n");
    bytes.push(0x02);
    assert!(matches!(parse(&bytes), HeaderParse::Malformed));
}

#[test]
fn unknown_address_type_is_malformed() {
    let mut bytes = vec![0x41u8; 56];
    bytes.extend_from_slice(b"\r\n");
    bytes.push(0x01);
    bytes.push(0x05);
    assert!(matches!(parse(&bytes), HeaderParse::Malformed));
}

#[test]
fn empty_domain_is_malformed() {
    let mut bytes = vec![0x41u8; 56];
    bytes.extend_from_slice(b"\r\n");
    bytes.push(0x01);
    bytes.push(0x03);
    bytes.push(0x00);
    assert!(matches!(parse(&bytes), HeaderParse::Malformed));
}

#[test]
fn missing_final_crlf_is_malformed() {
    let mut bytes = header_s1();
    let last = bytes.len() - 1;
    bytes[last] = 0x58;
    assert!(matches!(parse(&bytes), HeaderParse::Malformed));
}

#[test]
fn payload_is_not_consumed() {
    let mut bytes = header_s1();
    bytes.extend_from_slice(b"GET / HTTP/1.1\r\n");
    match parse(&bytes) {
        HeaderParse::Complete(_, n) => assert_eq!(n, 68),
        _ => panic!("expected a complete header"),
    }
}
