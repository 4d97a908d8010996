use torture::user::{derive_credential, OriginalUserItem, UserCenter};

const CRED_A: &[u8] = b"abd37534c7d9a2efb9465de931cd7055ffdb8879563ae98078d6d6d5";
const CRED_B: &[u8] = b"c681e18b81edaf2b66dd22376734dba5992e362bc3f91ab225854c17";
const CRED_C: &[u8] = b"1053463d383dc1e87f06fff34b3c6a2d340d91e184d46d70144ffa5a";

#[test]
fn credential_is_lowercase_hex_sha224() {
    let cred = derive_credential("u1");
    assert_eq!(cred.len(), 56);
    assert_eq!(
        cred,
        b"cd6adad373079744ca02ca27bc668760bed571059dceffcfc4261417".to_vec()
    );
}

#[test]
fn credential_of_single_letter_uuids() {
    assert_eq!(derive_credential("a"), CRED_A.to_vec());
    assert_eq!(derive_credential("b"), CRED_B.to_vec());
    assert_eq!(derive_credential("c"), CRED_C.to_vec());
}

#[test]
fn as_user_item_derives_the_credential() {
    let record = OriginalUserItem { id: 3, uuid: String::from("c") };
    let item = record.as_user_item();
    assert_eq!(item.id, 3);
    assert_eq!(item.secret, CRED_C.to_vec());
}

#[test]
fn default_directory_is_empty() {
    let center = UserCenter::default();
    assert_eq!(center.user_count(), 0);
    assert_eq!(center.validate(CRED_A), (false, -1));
}

#[test]
fn empty_directory_rejects() {
    let center = UserCenter::new();
    let zeros = [0u8; 56];
    assert_eq!(center.validate(&zeros), (false, -1));
}

#[test]
fn unknown_credential_yields_minus_one() {
    let mut center = UserCenter::new();
    let records = vec![
        OriginalUserItem { id: 1, uuid: String::from("a") },
    ];
    center.install(&records);
    let zeros = [0u8; 56];
    assert_eq!(center.validate(&zeros), (false, -1));
}

#[test]
fn refresh_replaces_wholesale() {
    let mut center = UserCenter::new();
    let first = vec![
        OriginalUserItem { id: 1, uuid: String::from("a") },
        OriginalUserItem { id: 2, uuid: String::from("b") },
    ];
    center.install(&first);
    assert_eq!(center.validate(CRED_A), (true, 1));
    assert_eq!(center.validate(CRED_B), (true, 2));

    let second = vec![OriginalUserItem { id: 3, uuid: String::from("c") }];
    center.install(&second);
    assert_eq!(center.validate(CRED_A), (false, -1));
    assert_eq!(center.validate(CRED_B), (false, -1));
    assert_eq!(center.validate(CRED_C), (true, 3));
}

#[test]
fn duplicate_credential_last_record_wins() {
    let mut center = UserCenter::new();
    let records = vec![
        OriginalUserItem { id: 1, uuid: String::from("a") },
        OriginalUserItem { id: 9, uuid: String::from("a") },
    ];
    center.install(&records);
    assert_eq!(center.validate(CRED_A), (true, 9));
}

#[test]
fn duplicate_credentials_counted_once() {
    let mut center = UserCenter::new();
    let records = vec![
        OriginalUserItem { id: 1, uuid: String::from("a") },
        OriginalUserItem { id: 9, uuid: String::from("a") },
        OriginalUserItem { id: 2, uuid: String::from("b") },
    ];
    center.install(&records);
    assert_eq!(center.user_count(), 2);
}

#[test]
fn replace_users_installs_exactly_the_given_items() {
    let mut center = UserCenter::new();
    let first = vec![
        OriginalUserItem { id: 1, uuid: String::from("a") }.as_user_item(),
        OriginalUserItem { id: 2, uuid: String::from("b") }.as_user_item(),
    ];
    center.replace_users(first);
    assert_eq!(center.validate(CRED_A), (true, 1));
    let second = vec![OriginalUserItem { id: 3, uuid: String::from("c") }.as_user_item()];
    center.replace_users(second);
    assert_eq!(center.validate(CRED_A), (false, -1));
    assert_eq!(center.validate(CRED_C), (true, 3));
}

#[test]
fn user_count_follows_install() {
    let mut center = UserCenter::new();
    assert_eq!(center.user_count(), 0);
    let records = vec![
        OriginalUserItem { id: 1, uuid: String::from("a") },
        OriginalUserItem { id: 2, uuid: String::from("b") },
    ];
    center.install(&records);
    assert_eq!(center.user_count(), 2);
}
