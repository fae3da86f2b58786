use media_retention::dates::{prepare_date, read_created_at, timestamp_of};
use media_retention::services::overseerr::Overseerr;

#[test]
fn prepare_date_drops_the_zone_mark_and_the_separator() {
    assert_eq!(prepare_date("2023-01-01T10:20:30.000Z"), "2023-01-01 10:20:30.000");
    assert_eq!(prepare_date("2023-01-01T10:20:30.000ZZZ"), "2023-01-01 10:20:30.000");
    assert_eq!(prepare_date("TZ"), " ");
    assert_eq!(prepare_date("ZTZ"), "Z ");
    assert_eq!(prepare_date("T"), " ");
    assert_eq!(prepare_date("Z"), "");
    assert_eq!(prepare_date(""), "");
    assert_eq!(prepare_date("aTbTc"), "a b c");
    assert_eq!(prepare_date("été"), "été");
}

#[test]
fn created_at_is_the_unix_time_of_the_date() {
    assert_eq!(read_created_at("1970-01-01T00:00:00.000Z"), Some(0));
    assert_eq!(read_created_at("2023-01-01T00:00:00.000Z"), Some(1672531200));
    assert_eq!(read_created_at("2024-03-15T12:30:45.000Z"), Some(1710505845));
    assert_eq!(read_created_at("1969-12-31T23:59:59.000Z"), Some(-1));
    assert_eq!(read_created_at("2023-01-01 00:00:00.000"), Some(1672531200));
}

#[test]
fn created_at_rejects_other_shapes() {
    assert_eq!(read_created_at(""), None);
    assert_eq!(read_created_at("2023-01-01T00:00:00.123Z"), None);
    assert_eq!(read_created_at("2023-01-01T00:00:00Z"), None);
    assert_eq!(read_created_at("2023-13-01T00:00:00.000Z"), None);
    assert_eq!(read_created_at("yesterday"), None);
}

#[test]
fn created_at_is_cut_to_32_bits() {
    assert_eq!(timestamp_of(0), 0);
    assert_eq!(timestamp_of(2147483647), i32::MAX);
    assert_eq!(timestamp_of(2147483648), i32::MIN);
    assert_eq!(timestamp_of(-1), -1);
    assert_eq!(timestamp_of(4294967296 + 5), 5);
    assert_eq!(read_created_at("2038-01-19T03:14:08.000Z"), Some(i32::MIN));
}

#[test]
fn overseerr_converts_dates_the_same_way() {
    let overseerr = Overseerr::new(1, "http://o", "k");
    assert_eq!(overseerr.convert_date_to_timestamp("2023-01-01T00:00:00.000Z"), Some(1672531200));
    assert_eq!(overseerr.convert_date_to_timestamp("soon"), None);
}
