//! The control-plane client's decoding half: panel responses are JSON, and
//! what the node reads out of them is decided here.
//!
//! The HTTP exchange itself is outside I/O; this module takes the response
//! body as text. serde_json does the parsing behind two trusted readers;
//! what each response text carries is named (`json_parses`,
//! `server_port_of`, `users_fields`) — serde_json's answers depend on the
//! text alone — and the decoders' contracts are stated over those names,
//! with the verified `port_from_u64` and `user_from_fields` doing every
//! range and presence check on the plain values read out.

use vstd::prelude::*;
use crate::config::{Config, InboundConfig, SupportedProtocols};
use crate::error::PanelError;
use crate::user::OriginalUserItem;
use vstd::string::StringExecFns;

verus! {

/// Whether serde_json accepts the text as JSON: a function of the text
/// alone.
pub uninterp spec fn json_parses(text: Seq<char>) -> bool;

/// The unsigned integer at `data.server_port` of the text, if the text is
/// JSON and carries one: a function of the text alone.
pub uninterp spec fn server_port_of(text: Seq<char>) -> Option<u64>;

/// The `(id, uuid)` field pairs of the elements under `data` of the text:
/// `Some` when the text is JSON whose `data` field is an array, with one
/// pair per element — its `id` field as a signed integer and its `uuid`
/// field as a string, where the element carries them. A function of the
/// text alone.
pub uninterp spec fn users_fields(text: Seq<char>) -> Option<
    Seq<(Option<i64>, Option<Seq<char>>)>,
>;

/// What the config response text carries at `data.server_port`.
enum PortPayload {
    NotJson,
    Missing,
    Value(u64),
}

/// What the users response text carries under `data`.
enum UsersPayload {
    NotJson,
    NoList,
    Fields(Vec<(Option<i64>, Option<String>)>),
}

/// Relies on serde_json: `from_str`, `Value::get` and `Value::as_u64`,
/// each deterministic in the text, read `data.server_port` out of it.
#[verifier::external_body]
fn read_server_port(text: &str) -> (r: PortPayload)
    ensures
        match r {
            PortPayload::NotJson => !json_parses(text@),
            PortPayload::Missing => json_parses(text@) && server_port_of(text@) is None,
            PortPayload::Value(p) => json_parses(text@) && server_port_of(text@) == Some(p),
        },
{
    let parsed: serde_json::Value = match serde_json::from_str(text) {
        Ok(v) => v,
        Err(_) => return PortPayload::NotJson,
    };
    let data = match parsed.get("data") {
        Some(d) => d,
        None => return PortPayload::Missing,
    };
    match data.get("server_port").and_then(serde_json::Value::as_u64) {
        Some(p) => PortPayload::Value(p),
        None => PortPayload::Missing,
    }
}

/// Relies on serde_json: `from_str`, `Value::get`, `Value::as_array`,
/// `Value::as_i64` and `Value::as_str`, each deterministic in the text,
/// read the `data` elements' `id` and `uuid` fields out of it.
#[verifier::external_body]
fn read_users_fields(text: &str) -> (r: UsersPayload)
    ensures
        match r {
            UsersPayload::NotJson => !json_parses(text@),
            UsersPayload::NoList => json_parses(text@) && users_fields(text@) is None,
            UsersPayload::Fields(v) => {
                &&& json_parses(text@)
                &&& users_fields(text@) matches Some(fields)
                &&& users_fields(text@).unwrap().len() == v@.len()
                &&& forall|i: int|
                    0 <= i < v@.len() ==> users_fields(text@).unwrap()[i].0 == #[trigger] v@[i].0
                &&& forall|i: int|
                    0 <= i < v@.len() ==> (users_fields(text@).unwrap()[i].1 is Some) == (
                    #[trigger] v@[i].1 is Some)
                &&& forall|i: int|
                    0 <= i < v@.len() ==> (#[trigger] v@[i].1 matches Some(s) ==> users_fields(
                        text@,
                    ).unwrap()[i].1 == Some(s@))
            },
        },
{
    let parsed: serde_json::Value = match serde_json::from_str(text) {
        Ok(v) => v,
        Err(_) => return UsersPayload::NotJson,
    };
    let list = match parsed.get("data").and_then(serde_json::Value::as_array) {
        Some(l) => l,
        None => return UsersPayload::NoList,
    };
    let mut fields = Vec::new();
    for element in list {
        fields.push((element.get("id").and_then(serde_json::Value::as_i64),
            element.get("uuid").and_then(serde_json::Value::as_str).map(str::to_owned)));
    }
    UsersPayload::Fields(fields)
}

/// A port read from JSON, checked against its wire range: sixteen bits.
pub fn port_from_u64(x: u64) -> (r: Result<u16, PanelError>)
    ensures
        x <= 0xffff ==> r == Ok::<u16, PanelError>(x as u16),
        x > 0xffff ==> r == Err::<u16, PanelError>(PanelError::OutOfRange),
{
    if x <= 0xffff {
        Ok(x as u16)
    } else {
        Err(PanelError::OutOfRange)
    }
}

/// A user record assembled from the plain fields read out of one JSON
/// element: both must be present, and the id must fit a signed 32-bit
/// value.
pub fn user_from_fields(id: Option<i64>, uuid: Option<String>) -> (r: Result<
    OriginalUserItem,
    PanelError,
>)
    ensures
        match (id, uuid) {
            (Some(i), Some(u)) => {
                if i32::MIN <= i <= i32::MAX {
                    r matches Ok(item) && item.id == i as i32 && item.uuid@ == u@
                } else {
                    r == Err::<OriginalUserItem, PanelError>(PanelError::OutOfRange)
                }
            },
            _ => r == Err::<OriginalUserItem, PanelError>(PanelError::MissingField),
        },
{
    match (id, uuid) {
        (Some(i), Some(u)) => {
            if i32::MIN as i64 <= i && i <= i32::MAX as i64 {
                Ok(OriginalUserItem { id: i as i32, uuid: u })
            } else {
                Err(PanelError::OutOfRange)
            }
        },
        _ => Err(PanelError::MissingField),
    }
}

/// Whether one element's field pair makes a user record.
pub open spec fn field_ok(f: (Option<i64>, Option<Seq<char>>)) -> bool {
    &&& f.0 is Some
    &&& f.1 is Some
    &&& i32::MIN <= f.0.unwrap() <= i32::MAX
}

/// The error a bad field pair draws: absence before range.
pub open spec fn field_error(f: (Option<i64>, Option<Seq<char>>)) -> PanelError {
    if f.0 is None || f.1 is None {
        PanelError::MissingField
    } else {
        PanelError::OutOfRange
    }
}

/// Decodes the users response `{"data":[{"id":…,"uuid":…},…]}`: one record
/// per element when every element carries both fields and each id fits,
/// otherwise the first bad element's error; text that is not JSON or lacks
/// the `data` array is rejected as such.
pub fn decode_users(text: &str) -> (r: Result<Vec<OriginalUserItem>, PanelError>)
    ensures
        !json_parses(text@) ==> r == Err::<Vec<OriginalUserItem>, PanelError>(PanelError::BadJson),
        json_parses(text@) && users_fields(text@) is None ==> r == Err::<
            Vec<OriginalUserItem>,
            PanelError,
        >(PanelError::MissingField),
        json_parses(text@) ==> (users_fields(text@) matches Some(fields) ==> {
            &&& (forall|i: int| 0 <= i < fields.len() ==> field_ok(#[trigger] fields[i])) ==> {
                &&& r matches Ok(items)
                &&& items@.len() == fields.len()
                &&& forall|i: int|
                    0 <= i < fields.len() ==> #[trigger] items@[i].id == fields[i].0.unwrap()
                &&& forall|i: int|
                    0 <= i < fields.len() ==> #[trigger] items@[i].uuid@ == fields[i].1.unwrap()
            }
            &&& (exists|i: int| 0 <= i < fields.len() && !field_ok(#[trigger] fields[i])) ==> (
            r matches Err(e) && exists|i: int|
                {
                    &&& 0 <= i < fields.len()
                    &&& !field_ok(#[trigger] fields[i])
                    &&& forall|j: int| 0 <= j < i ==> field_ok(#[trigger] fields[j])
                    &&& e == field_error(fields[i])
                })
        }),
{
    let list = match read_users_fields(text) {
        UsersPayload::NotJson => {
            return Err(PanelError::BadJson);
        },
        UsersPayload::NoList => {
            return Err(PanelError::MissingField);
        },
        UsersPayload::Fields(list) => list,
    };
    let ghost fields = users_fields(text@).unwrap();
    let mut out: Vec<OriginalUserItem> = Vec::new();
    let mut i: usize = 0;
    while i < list.len()
        invariant
            i <= list@.len(),
            out@.len() == i,
            json_parses(text@),
            users_fields(text@) == Some(fields),
            fields.len() == list@.len(),
            forall|k: int| 0 <= k < list@.len() ==> fields[k].0 == #[trigger] list@[k].0,
            forall|k: int|
                0 <= k < list@.len() ==> (fields[k].1 is Some) == (#[trigger] list@[k].1 is Some),
            forall|k: int|
                0 <= k < list@.len() ==> (#[trigger] list@[k].1 matches Some(s) ==> fields[k].1
                    == Some(s@)),
            forall|j: int| 0 <= j < i ==> field_ok(#[trigger] fields[j]),
            forall|j: int| 0 <= j < i ==> #[trigger] out@[j].id == fields[j].0.unwrap(),
            forall|j: int| 0 <= j < i ==> #[trigger] out@[j].uuid@ == fields[j].1.unwrap(),
        decreases list@.len() - i,
    {
        let element = &list[i];
        let id = element.0;
        let uuid = match &element.1 {
            Some(s) => Some(s.clone()),
            None => None,
        };
        match user_from_fields(id, uuid) {
            Ok(item) => out.push(item),
            Err(e) => {
                return Err(e);
            },
        }
        i = i + 1;
    }
    Ok(out)
}

/// Decodes the config response `{"data":{"server_port":…}}` and builds the
/// listener settings: the Trojan protocol, the bind address forced to
/// `0.0.0.0` whatever the panel says, the panel's port, and the TLS
/// materials carried over from the file configuration. Text that is not
/// JSON, lacks the port, or names one above sixteen bits is rejected as
/// such.
pub fn inbound_config_from_json(config: Config, text: &str) -> (r: Result<
    InboundConfig,
    PanelError,
>)
    ensures
        !json_parses(text@) ==> r == Err::<InboundConfig, PanelError>(PanelError::BadJson),
        json_parses(text@) && server_port_of(text@) is None ==> r == Err::<
            InboundConfig,
            PanelError,
        >(PanelError::MissingField),
        json_parses(text@) ==> (server_port_of(text@) matches Some(p) ==> {
            &&& p <= 0xffff ==> (r matches Ok(c) && {
                &&& c.protocol == SupportedProtocols::TROJAN
                &&& c.address@ == "0.0.0.0"@
                &&& c.port == p as u16
                &&& c.tls == config.tls
            })
            &&& p > 0xffff ==> r == Err::<InboundConfig, PanelError>(PanelError::OutOfRange)
        }),
{
    let raw = match read_server_port(text) {
        PortPayload::NotJson => {
            return Err(PanelError::BadJson);
        },
        PortPayload::Missing => {
            return Err(PanelError::MissingField);
        },
        PortPayload::Value(p) => p,
    };
    let port = match port_from_u64(raw) {
        Ok(p) => p,
        Err(e) => {
            return Err(e);
        },
    };
    Ok(InboundConfig {
        protocol: SupportedProtocols::TROJAN,
        address: String::from_str("0.0.0.0"),
        port,
        tls: config.tls,
    })
}

} // verus!
