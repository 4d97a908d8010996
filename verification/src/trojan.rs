//! The Trojan wire protocol: the request model, the header encoder and the
//! header decoder.
//!
//! A request header is, in order: a 56-byte credential, CRLF, one command
//! byte, one address-type byte, the address bytes, a big-endian port, CRLF.
//! The payload begins at the first byte after the trailing CRLF.

use vstd::prelude::*;
use crate::render::{dec_seq, hex_pair, push_dec_u64, push_all, push_hex_byte};

verus! {

/// Length of the on-wire credential: lowercase hex of a SHA-224 digest.
pub const HEX_SIZE: usize = 56;

/// The request command carried on the wire: `0x01` CONNECT, `0x03` UDP ASSOCIATE.
#[derive(Clone, Copy, PartialEq, Eq, Structural, Debug)]
pub enum Command {
    Connect,
    Udp,
}

/// The wire address type: `0x01` IPv4, `0x03` domain, `0x04` IPv6.
#[derive(Clone, Copy, PartialEq, Eq, Structural, Debug)]
pub enum Atype {
    IPv4,
    Domain,
    IPv6,
}

/// The transport a request asks for downstream.
#[derive(Clone, Copy, PartialEq, Eq, Structural, Debug)]
pub enum TransportProtocol {
    TCP,
    UDP,
}

/// A destination: four IPv4 octets, a domain name, or sixteen IPv6 octets.
#[derive(Debug)]
pub enum IpAddress {
    V4(Vec<u8>),
    Domain(Vec<u8>),
    V6(Vec<u8>),
}

/// The wire byte for a command.
pub open spec fn cmd_byte(c: Command) -> u8 {
    match c {
        Command::Connect => 0x01,
        Command::Udp => 0x03,
    }
}

/// The wire byte for an address type.
pub open spec fn atype_byte(a: Atype) -> u8 {
    match a {
        Atype::IPv4 => 0x01,
        Atype::Domain => 0x03,
        Atype::IPv6 => 0x04,
    }
}

/// The address type that an address value carries.
pub open spec fn atype_of(a: IpAddress) -> Atype {
    match a {
        IpAddress::V4(_) => Atype::IPv4,
        IpAddress::Domain(_) => Atype::Domain,
        IpAddress::V6(_) => Atype::IPv6,
    }
}

/// Whether an address value is well formed: octet counts match the variant,
/// and a domain fits its one-byte length prefix.
pub open spec fn wf_addr(a: IpAddress) -> bool {
    match a {
        IpAddress::V4(v) => v@.len() == 4,
        IpAddress::Domain(d) => 1 <= d@.len() <= 255,
        IpAddress::V6(v) => v@.len() == 16,
    }
}

/// The wire form of an address: a domain carries its length byte first.
pub open spec fn addr_wire(a: IpAddress) -> Seq<u8> {
    match a {
        IpAddress::V4(v) => v@,
        IpAddress::Domain(d) => seq![d@.len() as u8] + d@,
        IpAddress::V6(v) => v@,
    }
}

/// The mathematical content of a request header.
#[verifier::ext_equal]
pub ghost struct HeaderView {
    pub hex: Seq<u8>,
    pub command: Command,
    pub atype: Atype,
    pub addr: Seq<u8>,
    pub port: u16,
}

impl HeaderView {
    /// Well-formedness of the abstract header: credential length, and address
    /// bytes that match the address type.
    pub open spec fn wf(self) -> bool {
        &&& self.hex.len() == 56
        &&& match self.atype {
            Atype::IPv4 => self.addr.len() == 4,
            Atype::Domain => {
                &&& self.addr.len() >= 2
                &&& self.addr.len() == 1 + self.addr[0]
                &&& self.addr[0] >= 1
            },
            Atype::IPv6 => self.addr.len() == 16,
        }
    }

    /// The bytes of this header on the wire.
    pub open spec fn encode(self) -> Seq<u8> {
        self.hex + seq![0x0du8, 0x0au8] + seq![cmd_byte(self.command), atype_byte(self.atype)]
            + self.addr + seq![(self.port / 256) as u8, (self.port % 256) as u8]
            + seq![0x0du8, 0x0au8]
    }
}

/// A parsed Trojan request: credential, command, and destination.
#[derive(Debug)]
pub struct Request {
    hex: Vec<u8>,
    command: Command,
    atype: Atype,
    addr: IpAddress,
    port: u16,
}

impl View for Request {
    type V = HeaderView;

    closed spec fn view(&self) -> HeaderView {
        HeaderView {
            hex: self.hex@,
            command: self.command,
            atype: self.atype,
            addr: addr_wire(self.addr),
            port: self.port,
        }
    }
}

impl Request {
    /// Concrete well-formedness: the field invariants behind the view.
    pub closed spec fn wf(&self) -> bool {
        &&& self.hex@.len() == 56
        &&& self.atype == atype_of(self.addr)
        &&& wf_addr(self.addr)
    }

    /// A well-formed request has a well-formed abstract header.
    pub proof fn lemma_wf_view(&self)
        requires
            self.wf(),
        ensures
            self@.wf(),
    {
    }

    pub fn new(hex: Vec<u8>, command: Command, atype: Atype, addr: IpAddress, port: u16) -> (r:
        Request)
        requires
            hex@.len() == HEX_SIZE,
            atype == atype_of(addr),
            wf_addr(addr),
        ensures
            r.wf(),
            r@ == (HeaderView {
                hex: hex@,
                command,
                atype,
                addr: addr_wire(addr),
                port,
            }),
    {
        Request { hex, command, atype, addr, port }
    }

    /// The credential field, as the 56 wire bytes.
    pub fn get_hex(&self) -> (r: &[u8])
        ensures
            r@ == self@.hex,
    {
        self.hex.as_slice()
    }

    /// Turns the parsed header into the request handed downstream;
    /// UDP ASSOCIATE asks for UDP transport, everything else for TCP.
    pub fn inbound_request(self) -> (r: InboundRequest)
        ensures
            r.atype == self@.atype,
            addr_wire(r.addr) == self@.addr,
            r.command == self@.command,
            r.port == self@.port,
            r.transport_protocol == (if self@.command == Command::Udp {
                TransportProtocol::UDP
            } else {
                TransportProtocol::TCP
            }),
            self.wf() ==> r.wf(),
    {
        let transport = match self.command {
            Command::Udp => TransportProtocol::UDP,
            _ => TransportProtocol::TCP,
        };
        InboundRequest::new(self.atype, self.addr, self.command, self.port, transport)
    }

    /// Rebuilds a header from a downstream request and a credential.
    pub fn from_request(request: &InboundRequest, secret: Vec<u8>) -> (r: Request)
        requires
            secret@.len() == 56,
        ensures
            r@.hex == secret@,
            r@.command == request.command,
            r@.atype == request.atype,
            r@.addr == addr_wire(request.addr),
            r@.port == request.port,
            request.wf() ==> r.wf(),
    {
        Request {
            hex: secret,
            command: request.command,
            atype: request.atype,
            addr: request.addr.duplicate(),
            port: request.port,
        }
    }
}

/// The request handed from the ingress to the relay.
#[derive(Debug)]
pub struct InboundRequest {
    pub atype: Atype,
    pub addr: IpAddress,
    pub command: Command,
    pub port: u16,
    pub transport_protocol: TransportProtocol,
}

impl InboundRequest {
    /// Field invariants: the address matches its declared type.
    pub open spec fn wf(&self) -> bool {
        &&& self.atype == atype_of(self.addr)
        &&& wf_addr(self.addr)
    }

    pub fn new(
        atype: Atype,
        addr: IpAddress,
        command: Command,
        port: u16,
        transport_protocol: TransportProtocol,
    ) -> (r: InboundRequest)
        ensures
            r.atype == atype,
            r.addr == addr,
            r.command == command,
            r.port == port,
            r.transport_protocol == transport_protocol,
    {
        InboundRequest { atype, addr, command, port, transport_protocol }
    }
}

impl IpAddress {
    /// A copy of this address with the same bytes.
    pub fn duplicate(&self) -> (r: IpAddress)
        ensures
            addr_wire(r) == addr_wire(*self),
            atype_of(r) == atype_of(*self),
            wf_addr(*self) ==> wf_addr(r),
    {
        match self {
            IpAddress::V4(v) => IpAddress::V4(vstd::slice::slice_to_vec(v.as_slice())),
            IpAddress::Domain(d) => IpAddress::Domain(vstd::slice::slice_to_vec(d.as_slice())),
            IpAddress::V6(v) => IpAddress::V6(vstd::slice::slice_to_vec(v.as_slice())),
        }
    }
}

/// One colon-separated group of an IPv6 address: four lowercase-hex digits.
pub open spec fn v6_group(v: Seq<u8>, g: int) -> Seq<u8> {
    hex_pair(v[2 * g]) + hex_pair(v[2 * g + 1])
}

/// The text handed to the outbound dial: `a.b.c.d:port`, `domain:port`, or
/// a bracketed IPv6 form `[gggg:...:gggg]:port`.
pub open spec fn target_bytes(a: IpAddress, port: u16) -> Seq<u8> {
    match a {
        IpAddress::V4(v) => dec_seq(v@[0] as nat) + seq![0x2eu8] + dec_seq(v@[1] as nat)
            + seq![0x2eu8] + dec_seq(v@[2] as nat) + seq![0x2eu8] + dec_seq(v@[3] as nat)
            + seq![0x3au8] + dec_seq(port as nat),
        IpAddress::Domain(d) => d@ + seq![0x3au8] + dec_seq(port as nat),
        IpAddress::V6(v) => seq![0x5bu8] + v6_group(v@, 0) + seq![0x3au8] + v6_group(v@, 1)
            + seq![0x3au8] + v6_group(v@, 2) + seq![0x3au8] + v6_group(v@, 3) + seq![0x3au8]
            + v6_group(v@, 4) + seq![0x3au8] + v6_group(v@, 5) + seq![0x3au8] + v6_group(v@, 6)
            + seq![0x3au8] + v6_group(v@, 7) + seq![0x5du8, 0x3au8] + dec_seq(port as nat),
    }
}

impl InboundRequest {
    /// Renders the destination this request asks for, as the ASCII text an
    /// outbound dial takes. Domain names are not resolved here.
    pub fn into_destination_address(&self) -> (r: Vec<u8>)
        requires
            self.wf(),
        ensures
            r@ == target_bytes(self.addr, self.port),
    {
        let mut out: Vec<u8> = Vec::new();
        match &self.addr {
            IpAddress::V4(v) => {
                push_dec_u64(&mut out, v[0] as u64);
                out.push(0x2e);
                push_dec_u64(&mut out, v[1] as u64);
                out.push(0x2e);
                push_dec_u64(&mut out, v[2] as u64);
                out.push(0x2e);
                push_dec_u64(&mut out, v[3] as u64);
            },
            IpAddress::Domain(d) => {
                push_all(&mut out, d.as_slice());
            },
            IpAddress::V6(v) => {
                out.push(0x5b);
                push_hex_byte(&mut out, v[0]);
                push_hex_byte(&mut out, v[1]);
                out.push(0x3a);
                push_hex_byte(&mut out, v[2]);
                push_hex_byte(&mut out, v[3]);
                out.push(0x3a);
                push_hex_byte(&mut out, v[4]);
                push_hex_byte(&mut out, v[5]);
                out.push(0x3a);
                push_hex_byte(&mut out, v[6]);
                push_hex_byte(&mut out, v[7]);
                out.push(0x3a);
                push_hex_byte(&mut out, v[8]);
                push_hex_byte(&mut out, v[9]);
                out.push(0x3a);
                push_hex_byte(&mut out, v[10]);
                push_hex_byte(&mut out, v[11]);
                out.push(0x3a);
                push_hex_byte(&mut out, v[12]);
                push_hex_byte(&mut out, v[13]);
                out.push(0x3a);
                push_hex_byte(&mut out, v[14]);
                push_hex_byte(&mut out, v[15]);
                out.push(0x5d);
            },
        }
        out.push(0x3a);
        push_dec_u64(&mut out, self.port as u64);
        proof {
            assert(out@ =~= target_bytes(self.addr, self.port));
        }
        out
    }
}

/// Writes a well-formed request header in its wire form.
pub fn encode_request(r: &Request) -> (out: Vec<u8>)
    requires
        r.wf(),
    ensures
        out@ == r@.encode(),
{
    let mut out: Vec<u8> = Vec::new();
    push_all(&mut out, r.hex.as_slice());
    out.push(0x0d);
    out.push(0x0a);
    out.push(match r.command {
        Command::Connect => 0x01,
        Command::Udp => 0x03,
    });
    out.push(match r.atype {
        Atype::IPv4 => 0x01,
        Atype::Domain => 0x03,
        Atype::IPv6 => 0x04,
    });
    match &r.addr {
        IpAddress::V4(v) => push_all(&mut out, v.as_slice()),
        IpAddress::Domain(d) => {
            out.push(d.len() as u8);
            push_all(&mut out, d.as_slice());
        },
        IpAddress::V6(v) => push_all(&mut out, v.as_slice()),
    }
    out.push((r.port / 256) as u8);
    out.push((r.port % 256) as u8);
    out.push(0x0d);
    out.push(0x0a);
    proof {
        assert(out@ =~= r@.encode());
    }
    out
}

} // verus!
