//! The Trojan header decoder.
//!
//! `parse_spec` is the mathematical parser on byte strings; the executable
//! `parse` returns exactly what it says. A buffer that so far shows no fault
//! but ends inside the header parses as `Incomplete`: the caller reads more
//! bytes and tries again, or gives up at end of stream with `parse_at_eof`.

use vstd::prelude::*;
use crate::error::ConnError;
use crate::trojan::{
    atype_byte, cmd_byte, Atype, Command, HeaderView, IpAddress, Request,
};

verus! {

/// Whether a byte names a command.
pub open spec fn valid_cmd(b: u8) -> bool {
    b == 0x01 || b == 0x03
}

/// Whether a byte names an address type.
pub open spec fn valid_atype(b: u8) -> bool {
    b == 0x01 || b == 0x03 || b == 0x04
}

/// The command a valid byte names.
pub open spec fn spec_cmd(b: u8) -> Command {
    if b == 0x01 {
        Command::Connect
    } else {
        Command::Udp
    }
}

/// The address type a valid byte names.
pub open spec fn spec_atype(b: u8) -> Atype {
    if b == 0x01 {
        Atype::IPv4
    } else if b == 0x03 {
        Atype::Domain
    } else {
        Atype::IPv6
    }
}

/// What a buffer holds at its start: a complete header and its length in
/// bytes, too few bytes to decide yet, or a malformed header.
#[verifier::ext_equal]
pub ghost enum SpecParse {
    Complete(HeaderView, int),
    Incomplete,
    Malformed,
}

/// The tail of the parse, after the address bytes: `p` is the index just
/// past the address, where the port and the final CRLF stand.
pub open spec fn parse_spec_tail(s: Seq<u8>, cmd: Command, at: Atype, p: int) -> SpecParse {
    if s.len() > p + 2 && s[p + 2] != 0x0d {
        SpecParse::Malformed
    } else if s.len() > p + 3 && s[p + 3] != 0x0a {
        SpecParse::Malformed
    } else if s.len() < p + 4 {
        SpecParse::Incomplete
    } else {
        SpecParse::Complete(
            HeaderView {
                hex: s.subrange(0, 56),
                command: cmd,
                atype: at,
                addr: s.subrange(60, p),
                port: (s[p] * 256 + s[p + 1]) as u16,
            },
            p + 4,
        )
    }
}

/// The mathematical parser for a Trojan request header.
pub open spec fn parse_spec(s: Seq<u8>) -> SpecParse {
    if s.len() > 56 && s[56] != 0x0d {
        SpecParse::Malformed
    } else if s.len() > 57 && s[57] != 0x0a {
        SpecParse::Malformed
    } else if s.len() > 58 && !valid_cmd(s[58]) {
        SpecParse::Malformed
    } else if s.len() > 59 && !valid_atype(s[59]) {
        SpecParse::Malformed
    } else if s.len() < 60 {
        SpecParse::Incomplete
    } else {
        let cmd = spec_cmd(s[58]);
        let at = spec_atype(s[59]);
        if s[59] == 0x01 {
            parse_spec_tail(s, cmd, at, 64)
        } else if s[59] == 0x04 {
            parse_spec_tail(s, cmd, at, 76)
        } else if s.len() < 61 {
            SpecParse::Incomplete
        } else if s[60] == 0 {
            SpecParse::Malformed
        } else {
            parse_spec_tail(s, cmd, at, 61 + s[60])
        }
    }
}

/// A complete parse names a well-formed header whose wire form is exactly
/// the consumed prefix of the buffer.
pub proof fn lemma_parse_sound(s: Seq<u8>, v: HeaderView, n: int)
    requires
        parse_spec(s) == SpecParse::Complete(v, n),
    ensures
        v.wf(),
        64 <= n <= s.len(),
        s.subrange(0, n) =~= v.encode(),
{
    assert(s.subrange(0, n) =~= v.encode());
}

/// Header round-trip: the bytes a writer produces, followed by anything,
/// parse back to the same header, consuming exactly the written bytes.
pub proof fn lemma_header_round_trip(v: HeaderView, rest: Seq<u8>)
    requires
        v.wf(),
    ensures
        parse_spec(v.encode() + rest) == SpecParse::Complete(v, v.encode().len() as int),
{
    let e = v.encode();
    let s = e + rest;
    let p = 60 + v.addr.len() as int;
    assert(e.len() == p + 4);
    assert forall|i: int| 0 <= i < e.len() implies s[i] == e[i] by {}
    assert(s[56] == 0x0d);
    assert(s[57] == 0x0a);
    assert(s[58] == cmd_byte(v.command));
    assert(s[59] == atype_byte(v.atype));
    assert(forall|i: int| 0 <= i < v.addr.len() ==> s[60 + i] == v.addr[i]);
    assert(s[p] == (v.port / 256) as u8);
    assert(s[p + 1] == (v.port % 256) as u8);
    assert(s[p + 2] == 0x0d);
    assert(s[p + 3] == 0x0a);
    assert(valid_cmd(s[58]) && spec_cmd(s[58]) == v.command);
    assert(valid_atype(s[59]) && spec_atype(s[59]) == v.atype);
    if v.atype == Atype::Domain {
        assert(s[60] == v.addr[0]);
        assert(s[60] != 0);
        assert(61 + s[60] == p);
    }
    match parse_spec(s) {
        SpecParse::Complete(v2, n2) => {
            assert(v2.hex =~= v.hex);
            assert(v2.addr =~= v.addr);
            assert(v2.port == v.port);
            assert(v2 =~= v);
            assert(n2 == e.len());
            assert(parse_spec(s) =~= SpecParse::Complete(v, e.len() as int));
        },
        SpecParse::Incomplete => {
            assert(false);
        },
        SpecParse::Malformed => {
            assert(false);
        },
    }
}

/// What the executable parser found at the start of a buffer.
#[derive(Debug)]
pub enum HeaderParse {
    /// A full header, and how many bytes of the buffer it took.
    Complete(Request, usize),
    /// The buffer shows no fault yet but ends inside the header.
    Incomplete,
    /// No byte string starting with this buffer is a valid header.
    Malformed,
}

/// The executable outcome agrees with the mathematical one.
pub open spec fn outcome_matches(r: HeaderParse, s: SpecParse) -> bool {
    match r {
        HeaderParse::Complete(req, n) => {
            &&& req.wf()
            &&& s == SpecParse::Complete(req@, n as int)
        },
        HeaderParse::Incomplete => s is Incomplete,
        HeaderParse::Malformed => s is Malformed,
    }
}

/// Decodes a Trojan request header from the start of `buf`, consuming
/// nothing past the trailing CRLF.
pub fn parse(buf: &[u8]) -> (r: HeaderParse)
    ensures
        outcome_matches(r, parse_spec(buf@)),
{
    let n = buf.len();
    if n > 56 && buf[56] != 0x0d {
        return HeaderParse::Malformed;
    }
    if n > 57 && buf[57] != 0x0a {
        return HeaderParse::Malformed;
    }
    if n > 58 && !(buf[58] == 0x01 || buf[58] == 0x03) {
        return HeaderParse::Malformed;
    }
    if n > 59 && !(buf[59] == 0x01 || buf[59] == 0x03 || buf[59] == 0x04) {
        return HeaderParse::Malformed;
    }
    if n < 60 {
        return HeaderParse::Incomplete;
    }
    let cmd = if buf[58] == 0x01 {
        Command::Connect
    } else {
        Command::Udp
    };
    let at_byte = buf[59];
    let p: usize = if at_byte == 0x01 {
        64
    } else if at_byte == 0x04 {
        76
    } else {
        if n < 61 {
            return HeaderParse::Incomplete;
        }
        if buf[60] == 0 {
            return HeaderParse::Malformed;
        }
        61 + buf[60] as usize
    };
    if n > p + 2 && buf[p + 2] != 0x0d {
        return HeaderParse::Malformed;
    }
    if n > p + 3 && buf[p + 3] != 0x0a {
        return HeaderParse::Malformed;
    }
    if n < p + 4 {
        return HeaderParse::Incomplete;
    }
    let hex = vstd::slice::slice_to_vec(vstd::slice::slice_subrange(buf, 0, 56));
    let atype = if at_byte == 0x01 {
        Atype::IPv4
    } else if at_byte == 0x04 {
        Atype::IPv6
    } else {
        Atype::Domain
    };
    let addr = if at_byte == 0x01 {
        IpAddress::V4(vstd::slice::slice_to_vec(vstd::slice::slice_subrange(buf, 60, 64)))
    } else if at_byte == 0x04 {
        IpAddress::V6(vstd::slice::slice_to_vec(vstd::slice::slice_subrange(buf, 60, 76)))
    } else {
        IpAddress::Domain(vstd::slice::slice_to_vec(vstd::slice::slice_subrange(buf, 61, p)))
    };
    let port: u16 = (buf[p] as u16) * 256 + (buf[p + 1] as u16);
    let req = Request::new(hex, cmd, atype, addr, port);
    proof {
        if at_byte == 0x03 {
            assert(buf@.subrange(60, p as int) =~= seq![buf@[60]] + buf@.subrange(61, p as int));
        }
        assert(req@ =~= (match parse_spec(buf@) {
            SpecParse::Complete(v, _) => v,
            _ => req@,
        }));
    }
    HeaderParse::Complete(req, p + 4)
}

/// The parse outcome once the stream has ended: a header that is still
/// incomplete at end of stream is malformed.
pub fn parse_at_eof(buf: &[u8]) -> (r: Result<(Request, usize), ConnError>)
    ensures
        match parse_spec(buf@) {
            SpecParse::Complete(v, n) => {
                &&& r matches Ok((req, m)) && req@ == v && m as int == n && req.wf()
            },
            SpecParse::Incomplete => r == Err::<(Request, usize), ConnError>(ConnError::Malformed),
            SpecParse::Malformed => r == Err::<(Request, usize), ConnError>(ConnError::Malformed),
        },
{
    match parse(buf) {
        HeaderParse::Complete(req, n) => Ok((req, n)),
        HeaderParse::Incomplete => Err(ConnError::Malformed),
        HeaderParse::Malformed => Err(ConnError::Malformed),
    }
}

} // verus!
