use torture::error::ConnError;
use torture::parser::{parse, HeaderParse};
use torture::relay::{accept, combine_copy_outcomes, Handler};
use torture::trojan::{Atype, Command, IpAddress, Request, TransportProtocol};
use torture::user::{OriginalUserItem, UserCenter};

const CRED_A: &[u8] = b"abd37534c7d9a2efb9465de931cd7055ffdb8879563ae98078d6d6d5";

fn directory_with_a() -> UserCenter {
    let mut center = UserCenter::new();
    let records = vec![OriginalUserItem { id: 11, uuid: String::from("a") }];
    center.install(&records);
    center
}

#[test]
fn happy_tcp_relay_decisions() {
    // The S1 wire bytes: credential of "u1", CONNECT, 127.0.0.1:8080.
    let mut center = UserCenter::new();
    let records = vec![OriginalUserItem { id: 5, uuid: String::from("u1") }];
    center.install(&records);

    let mut bytes = torture::user::derive_credential("u1");
    bytes.extend_from_slice(b"\r\n\x01\x01");
    bytes.extend_from_slice(&[127, 0, 0, 1, 0x1f, 0x90]);
    bytes.extend_from_slice(b"\r\n");
    bytes.extend_from_slice(b"PING");

    let (req, consumed) = match parse(&bytes) {
        HeaderParse::Complete(req, n) => (req, n),
        _ => panic!("expected a complete header"),
    };
    assert_eq!(consumed, 68);

    let (inbound, id) = accept(req, &center).unwrap();
    assert_eq!(id, 5);
    assert!(matches!(inbound.transport_protocol, TransportProtocol::TCP));

    let handler = Handler::new();
    let target = handler.dispatch_plan(&inbound).unwrap();
    assert_eq!(target, b"127.0.0.1:8080".to_vec());

    // 4 bytes each way: the delta carries 32 bits each way.
    let delta = torture::traffic::TrafficItem::from_byte_counts(id, 4, 4);
    assert_eq!((delta.user_id, delta.u, delta.d), (5, 32, 32));
}

#[test]
fn unknown_credential_is_unauthorized() {
    let center = directory_with_a();
    let req = Request::new(
        vec![0u8; 56],
        Command::Connect,
        Atype::IPv4,
        IpAddress::V4(vec![127, 0, 0, 1]),
        80,
    );
    assert_eq!(accept(req, &center).unwrap_err(), ConnError::Unauthorized);
}

#[test]
fn udp_command_is_unsupported() {
    let center = directory_with_a();
    let req = Request::new(
        CRED_A.to_vec(),
        Command::Udp,
        Atype::IPv4,
        IpAddress::V4(vec![127, 0, 0, 1]),
        80,
    );
    let (inbound, id) = accept(req, &center).unwrap();
    assert_eq!(id, 11);
    assert!(matches!(inbound.transport_protocol, TransportProtocol::UDP));
    let handler = Handler::new();
    assert_eq!(handler.dispatch_plan(&inbound).unwrap_err(), ConnError::Unsupported);
}

#[test]
fn domain_dial_target() {
    let center = directory_with_a();
    let req = Request::new(
        CRED_A.to_vec(),
        Command::Connect,
        Atype::Domain,
        IpAddress::Domain(b"example.com".to_vec()),
        443,
    );
    let (inbound, _) = accept(req, &center).unwrap();
    let handler = Handler::new();
    assert_eq!(handler.dispatch_plan(&inbound).unwrap(), b"example.com:443".to_vec());
}

#[test]
fn ipv6_dial_target_is_bracketed() {
    let center = directory_with_a();
    let mut octets = vec![0u8; 16];
    octets[0] = 0x20;
    octets[1] = 0x01;
    octets[15] = 0x01;
    let req = Request::new(
        CRED_A.to_vec(),
        Command::Connect,
        Atype::IPv6,
        IpAddress::V6(octets),
        8080,
    );
    let (inbound, _) = accept(req, &center).unwrap();
    let handler = Handler::new();
    assert_eq!(
        handler.dispatch_plan(&inbound).unwrap(),
        b"[2001:0000:0000:0000:0000:0000:0000:0001]:8080".to_vec()
    );
}

#[test]
fn copy_outcomes_are_independent() {
    assert_eq!(combine_copy_outcomes(Some(7), Some(9)), Ok((7, 9)));
    assert_eq!(combine_copy_outcomes(Some(7), None), Ok((7, 0)));
    assert_eq!(combine_copy_outcomes(None, Some(9)), Ok((0, 9)));
    assert_eq!(combine_copy_outcomes(None, None), Err(ConnError::Upstream));
}
