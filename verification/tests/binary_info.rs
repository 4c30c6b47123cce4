use fus_client::binary_info::{from_fields, select_key, BinaryFields, DecryptKey, InfoError};

const MODEL: &str = "SM-X200";
const REGION: &str = "EUX";
const VERSION: &str = "X200XXU1AUL5/X200OXM1AUL5/X200XXU1AUL5/X200XXU1AUL5";

// MD5 of "EUX:SM-X200:X200XXU1AUL5/X200OXM1AUL5/X200XXU1AUL5/X200XXU1AUL5"
const V2_KEY: [u8; 16] = [
    0xa2, 0xb9, 0x94, 0xe5, 0x1f, 0x58, 0x03, 0x1a, 0x6a, 0x0e, 0x92, 0xb4, 0x07, 0x21, 0x31,
    0x99,
];

// MD5 of the character selection of VERSION under the keystream
// "FAKEFACTORY", which is "U25XU20X00U"
const V4_KEY: [u8; 16] = [
    0x04, 0x7e, 0x7c, 0xa8, 0x3c, 0x44, 0x56, 0xca, 0xd7, 0xe1, 0x54, 0xbe, 0xd6, 0x26, 0x00,
    0xe8,
];

#[test]
fn selects_v2_by_suffix() {
    let k = select_key(MODEL, REGION, VERSION, "firmware.zip.enc2", "");
    match k {
        DecryptKey::V2(key) => assert_eq!(key, V2_KEY),
        _ => panic!("expected the model/region scheme"),
    }
}

#[test]
fn selects_v4_by_suffix() {
    let k = select_key(MODEL, REGION, VERSION, "firmware.zip.enc4", "FAKEFACTORY");
    match k {
        DecryptKey::V4(key) => assert_eq!(key, V4_KEY),
        _ => panic!("expected the derived-keystream scheme"),
    }
}

#[test]
fn selects_unknown_without_suffix() {
    assert!(matches!(select_key(MODEL, REGION, VERSION, "firmware.zip", ""), DecryptKey::Unknown));
    assert!(matches!(select_key(MODEL, REGION, VERSION, "", ""), DecryptKey::Unknown));
    assert!(matches!(
        select_key(MODEL, REGION, VERSION, "firmware.enc3", "x"),
        DecryptKey::Unknown
    ));
}

#[test]
fn select_key_is_deterministic_and_total_on_empty_factory() {
    // an empty keystream field is accepted: the key is the digest of the
    // empty selection, never a panic
    let a = select_key(MODEL, REGION, VERSION, "firmware.zip.enc4", "");
    let b = select_key(MODEL, REGION, VERSION, "firmware.zip.enc4", "");
    match (a, b) {
        (DecryptKey::V4(x), DecryptKey::V4(y)) => assert_eq!(x, y),
        _ => panic!("expected the derived-keystream scheme twice"),
    }
}

fn full_fields() -> BinaryFields {
    BinaryFields {
        binary_name: Some("firmware.zip.enc2".to_string()),
        binary_size: Some("123456".to_string()),
        version: Some(VERSION.to_string()),
        logic_value_factory: Some("FAKEFACTORY".to_string()),
        display_name: Some("Galaxy Tab A8".to_string()),
        os_version: Some("12".to_string()),
        model_path: Some("/neofus/910/".to_string()),
    }
}

#[test]
fn builds_record_from_fields() {
    let info = from_fields(MODEL, REGION, &full_fields()).unwrap();
    assert_eq!(info.binary_name, "firmware.zip.enc2");
    assert_eq!(info.binary_size, 123456);
    assert_eq!(info.version, VERSION);
    assert_eq!(info.display_name, "Galaxy Tab A8");
    assert_eq!(info.os_version, "12");
    assert_eq!(info.model_path, "/neofus/910/");
    assert!(matches!(info.decrypt_key, DecryptKey::V2(_)));
}

#[test]
fn missing_fields_are_reported_in_order() {
    let mut f = full_fields();
    f.binary_name = None;
    assert_eq!(from_fields(MODEL, REGION, &f).unwrap_err(), InfoError::MissingBinaryName);

    let mut f = full_fields();
    f.binary_size = None;
    assert_eq!(from_fields(MODEL, REGION, &f).unwrap_err(), InfoError::MissingBinarySize);

    let mut f = full_fields();
    f.binary_size = Some("12x".to_string());
    assert_eq!(from_fields(MODEL, REGION, &f).unwrap_err(), InfoError::InvalidBinarySize);

    let mut f = full_fields();
    f.version = None;
    assert_eq!(from_fields(MODEL, REGION, &f).unwrap_err(), InfoError::MissingVersion);

    let mut f = full_fields();
    f.display_name = None;
    assert_eq!(from_fields(MODEL, REGION, &f).unwrap_err(), InfoError::MissingDisplayName);

    let mut f = full_fields();
    f.os_version = None;
    assert_eq!(from_fields(MODEL, REGION, &f).unwrap_err(), InfoError::MissingOsVersion);

    let mut f = full_fields();
    f.model_path = None;
    assert_eq!(from_fields(MODEL, REGION, &f).unwrap_err(), InfoError::MissingModelPath);
}

#[test]
fn keystream_field_required_only_for_v4() {
    // a binary under the derived-keystream scheme needs the field
    let mut f = full_fields();
    f.binary_name = Some("firmware.zip.enc4".to_string());
    f.logic_value_factory = None;
    assert_eq!(
        from_fields(MODEL, REGION, &f).unwrap_err(),
        InfoError::MissingLogicValueFactory
    );

    // other binaries do not
    let mut f = full_fields();
    f.logic_value_factory = None;
    assert!(from_fields(MODEL, REGION, &f).is_ok());
    let mut f = full_fields();
    f.binary_name = Some("firmware.zip".to_string());
    f.logic_value_factory = None;
    let info = from_fields(MODEL, REGION, &f).unwrap();
    assert!(matches!(info.decrypt_key, DecryptKey::Unknown));
}
