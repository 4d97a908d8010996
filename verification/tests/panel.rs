use torture::config::{Config, SupportedProtocols};
use torture::error::PanelError;
use torture::panel::{decode_users, inbound_config_from_json, port_from_u64, user_from_fields};

fn config(url: &str) -> Config {
    Config {
        node_id: 7,
        webapi_url: String::from(url),
        webapi_key: String::from("k1"),
        check_interval: 60,
        submit_interval: 90,
        tls: None,
    }
}

#[test]
fn users_url_strips_trailing_slash() {
    let c = config("http://panel.example/");
    assert_eq!(
        c.get_users_url(),
        String::from("http://panel.example/api/v1/server/trojan/users")
    );
}

#[test]
fn submit_url_without_trailing_slash() {
    let c = config("http://panel.example");
    assert_eq!(
        c.get_submit_url(),
        String::from("http://panel.example/api/v1/server/trojan/submit")
    );
}

#[test]
fn config_url_strips_every_trailing_slash() {
    let c = config("http://panel.example///");
    assert_eq!(
        c.get_config_url(),
        String::from("http://panel.example/api/v1/server/trojan/config")
    );
}

#[test]
fn inbound_config_takes_port_and_forces_address() {
    let c = config("http://panel.example");
    let r = inbound_config_from_json(c, "{\"data\":{\"server_port\":8443}}").unwrap();
    assert_eq!(r.port, 8443);
    assert_eq!(r.address, String::from("0.0.0.0"));
    assert!(matches!(r.protocol, SupportedProtocols::TROJAN));
    assert!(r.tls.is_none());
}

#[test]
fn inbound_config_rejects_bad_json() {
    let c = config("http://panel.example");
    let r = inbound_config_from_json(c, "not json");
    assert_eq!(r.unwrap_err(), PanelError::BadJson);
}

#[test]
fn inbound_config_rejects_missing_data() {
    let c = config("http://panel.example");
    let r = inbound_config_from_json(c, "{\"other\":1}");
    assert_eq!(r.unwrap_err(), PanelError::MissingField);
}

#[test]
fn inbound_config_rejects_oversized_port() {
    let c = config("http://panel.example");
    let r = inbound_config_from_json(c, "{\"data\":{\"server_port\":70000}}");
    assert_eq!(r.unwrap_err(), PanelError::OutOfRange);
}

#[test]
fn port_range_check() {
    assert_eq!(port_from_u64(8080), Ok(8080));
    assert_eq!(port_from_u64(65535), Ok(65535));
    assert_eq!(port_from_u64(65536), Err(PanelError::OutOfRange));
}

#[test]
fn decode_users_reads_ids_and_uuids() {
    let body = "{\"data\":[{\"id\":1,\"uuid\":\"a\"},{\"id\":2,\"uuid\":\"b\"}]}";
    let users = decode_users(body).unwrap();
    assert_eq!(users.len(), 2);
    assert_eq!(users[0].id, 1);
    assert_eq!(users[0].uuid, String::from("a"));
    assert_eq!(users[1].id, 2);
    assert_eq!(users[1].uuid, String::from("b"));
}

#[test]
fn decode_users_rejects_missing_uuid() {
    let body = "{\"data\":[{\"id\":1}]}";
    assert_eq!(decode_users(body).unwrap_err(), PanelError::MissingField);
}

#[test]
fn decode_users_rejects_oversized_id() {
    let body = "{\"data\":[{\"id\":3000000000,\"uuid\":\"a\"}]}";
    assert_eq!(decode_users(body).unwrap_err(), PanelError::OutOfRange);
}

#[test]
fn decode_users_rejects_non_array_data() {
    let body = "{\"data\":3}";
    assert_eq!(decode_users(body).unwrap_err(), PanelError::MissingField);
}

#[test]
fn user_from_fields_checks_presence_and_range() {
    assert!(user_from_fields(None, Some(String::from("a"))).is_err());
    assert!(user_from_fields(Some(1), None).is_err());
    let item = user_from_fields(Some(-3), Some(String::from("x"))).unwrap();
    assert_eq!(item.id, -3);
    assert_eq!(item.uuid, String::from("x"));
}
