use image_organizer::calendar::{civil_from_days, format_utc, now_iso};

#[test]
fn civil_from_days_known_dates() {
    assert_eq!(civil_from_days(0), (1970, 1, 1));
    assert_eq!(civil_from_days(-1), (1969, 12, 31));
    assert_eq!(civil_from_days(11016), (2000, 2, 29));
    assert_eq!(civil_from_days(19723), (2024, 1, 1));
    assert_eq!(civil_from_days(-25508), (1900, 3, 1));
    assert_eq!(civil_from_days(-719162), (1, 1, 1));
}

#[test]
fn format_utc_is_zero_padded() {
    assert_eq!(format_utc(0), "1970-01-01 00:00:00");
    assert_eq!(format_utc(951829509), "2000-02-29 13:05:09");
    assert_eq!(format_utc(-1), "1969-12-31 23:59:59");
    assert_eq!(format_utc(-719529 * 86400), "-001-12-31 00:00:00");
}

#[test]
fn now_iso_has_the_timestamp_shape() {
    let s = now_iso();
    assert_eq!(s.len(), 19);
    let b = s.as_bytes();
    assert_eq!((b[4], b[7], b[10], b[13], b[16]), (b'-', b'-', b' ', b':', b':'));
    assert!(s.as_str() > "2020-01-01 00:00:00");
}
