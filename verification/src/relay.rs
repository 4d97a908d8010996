//! Per-connection decisions: authentication against the directory, the
//! refusal of non-TCP commands, and how the two copy directions' outcomes
//! become one byte tally.
//!
//! The surrounding task does the socket work and hands the results back in;
//! every decision between two I/O steps is made here.

use vstd::prelude::*;
use crate::error::ConnError;
use crate::trojan::{target_bytes, Command, InboundRequest, Request, TransportProtocol};
use crate::user::UserCenter;

verus! {

/// Accepts or refuses a parsed request against the directory snapshot: a
/// known credential yields the downstream request and the user's id, an
/// unknown one is unauthorized.
pub fn accept(request: Request, user_center: &UserCenter) -> (r: Result<
    (InboundRequest, i32),
    ConnError,
>)
    ensures
        !user_center@.contains_key(request@.hex) ==> r == Err::<(InboundRequest, i32), ConnError>(
            ConnError::Unauthorized,
        ),
        user_center@.contains_key(request@.hex) ==> (r matches Ok((ir, id)) && {
            &&& id == user_center@[request@.hex]
            &&& ir.command == request@.command
            &&& ir.port == request@.port
            &&& crate::trojan::addr_wire(ir.addr) == request@.addr
            &&& ir.atype == request@.atype
            &&& ir.transport_protocol == (if request@.command == Command::Udp {
                TransportProtocol::UDP
            } else {
                TransportProtocol::TCP
            })
            &&& (request.wf() ==> ir.wf())
        }),
{
    let (ok, id) = user_center.validate(request.get_hex());
    if !ok {
        return Err(ConnError::Unauthorized);
    }
    Ok((request.inbound_request(), id))
}

/// The relay engine. It owns no state; it decides what to do with a
/// request and combines what the copy phase reports.
#[derive(Debug)]
pub struct Handler {}

impl Handler {
    pub fn new() -> (r: Handler) {
        Handler {  }
    }

    /// What to do with an accepted request: TCP CONNECT gets the dial
    /// target of its destination, anything else is refused as unsupported.
    pub fn dispatch_plan(&self, request: &InboundRequest) -> (r: Result<Vec<u8>, ConnError>)
        requires
            request.wf(),
        ensures
            request.transport_protocol == TransportProtocol::TCP ==> (r matches Ok(t) && t@
                == target_bytes(request.addr, request.port)),
            request.transport_protocol == TransportProtocol::UDP ==> r == Err::<Vec<u8>, ConnError>(
                ConnError::Unsupported,
            ),
    {
        match request.transport_protocol {
            TransportProtocol::TCP => Ok(request.into_destination_address()),
            TransportProtocol::UDP => Err(ConnError::Unsupported),
        }
    }
}

/// Joins the two copy directions' outcomes. The directions are independent:
/// a side that finished contributes its count even when the other side
/// failed, and a failed side contributes zero. Only both failing fails the
/// relay.
pub fn combine_copy_outcomes(up: Option<u64>, down: Option<u64>) -> (r: Result<
    (u64, u64),
    ConnError,
>)
    ensures
        match (up, down) {
            (Some(u), Some(d)) => r == Ok::<(u64, u64), ConnError>((u, d)),
            (Some(u), None) => r == Ok::<(u64, u64), ConnError>((u, 0u64)),
            (None, Some(d)) => r == Ok::<(u64, u64), ConnError>((0u64, d)),
            (None, None) => r == Err::<(u64, u64), ConnError>(ConnError::Upstream),
        },
{
    match (up, down) {
        (Some(u), Some(d)) => Ok((u, d)),
        (Some(u), None) => Ok((u, 0)),
        (None, Some(d)) => Ok((0, d)),
        (None, None) => Err(ConnError::Upstream),
    }
}

} // verus!
