use fus_client::text::parse_u64;
use fus_client::version::{from_xml, Error};

#[test]
fn missing_or_empty_version_is_invalid() {
    assert_eq!(from_xml(None).unwrap_err(), Error::InvalidVersion);
    assert_eq!(from_xml(Some("")).unwrap_err(), Error::InvalidVersion);
    assert_eq!(from_xml(Some("A/B")).unwrap_err(), Error::InvalidVersion);
}

#[test]
fn three_part_version_gains_fourth() {
    assert_eq!(from_xml(Some("A/B/C")).unwrap(), "A/B/C/A");
}

#[test]
fn four_part_version_is_kept() {
    assert_eq!(from_xml(Some("A/B/C/D")).unwrap(), "A/B/C/D");
}

#[test]
fn empty_third_part_is_filled_from_first() {
    assert_eq!(from_xml(Some("A/B//D")).unwrap(), "A/B/A/D");
    assert_eq!(from_xml(Some("A/B/")).unwrap(), "A/B/A/A");
}

#[test]
fn realistic_version_strings() {
    assert_eq!(
        from_xml(Some("X200XXU1AUL5/X200OXM1AUL5/X200XXU1AUL5")).unwrap(),
        "X200XXU1AUL5/X200OXM1AUL5/X200XXU1AUL5/X200XXU1AUL5"
    );
    assert_eq!(
        from_xml(Some("X200XXU1AUL5/X200OXM1AUL5//X200XXU1AUL5")).unwrap(),
        "X200XXU1AUL5/X200OXM1AUL5/X200XXU1AUL5/X200XXU1AUL5"
    );
}

#[test]
fn parse_u64_accepts_decimal() {
    assert_eq!(parse_u64("0"), Some(0));
    assert_eq!(parse_u64("123456"), Some(123456));
    assert_eq!(parse_u64("+7"), Some(7));
    assert_eq!(parse_u64("18446744073709551615"), Some(u64::MAX));
}

#[test]
fn parse_u64_rejects_junk_and_overflow() {
    assert_eq!(parse_u64(""), None);
    assert_eq!(parse_u64("+"), None);
    assert_eq!(parse_u64("12x"), None);
    assert_eq!(parse_u64("-1"), None);
    assert_eq!(parse_u64(" 1"), None);
    assert_eq!(parse_u64("18446744073709551616"), None);
}
