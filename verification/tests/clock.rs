use brainbow::clock::Timestamp;

#[test]
fn timestamp_prints_date_and_time() {
    let t = Timestamp::from_unix(1431648000, 0).unwrap();
    assert_eq!(t.to_text(), "2015-05-15 00:00:00");
    assert_eq!(t.to_utc_text(), "2015-05-15 00:00:00 UTC");
}

#[test]
fn timestamp_prints_fraction() {
    let t = Timestamp::from_unix(0, 500_000_000).unwrap();
    assert_eq!(t.to_text(), "1970-01-01 00:00:00.500");
    let t = Timestamp::from_unix(-1, 1_000).unwrap();
    assert_eq!(t.to_text(), "1969-12-31 23:59:59.000001");
}

#[test]
fn timestamp_keeps_its_parts() {
    let t = Timestamp::from_unix(86_400, 7).unwrap();
    assert_eq!(t.seconds(), 86_400);
    assert_eq!(t.subsec_nanos(), 7);
}

#[test]
fn timestamp_out_of_range_is_refused() {
    assert_eq!(Timestamp::from_unix(i64::MAX, 0), None);
    assert_eq!(Timestamp::from_unix(i64::MIN, 0), None);
    assert_eq!(Timestamp::from_unix(0, 2_000_000_000), None);
    assert_eq!(Timestamp::from_unix(0, 1_000_000_000), None);
}

#[test]
fn timestamp_leap_second_is_taken() {
    let t = Timestamp::from_unix(59, 1_500_000_000).unwrap();
    assert_eq!(t.to_text(), "1970-01-01 00:00:60.500");
}

#[test]
fn timestamp_now_is_after_2020() {
    let t = Timestamp::now();
    assert!(t.seconds() > 1_577_836_800);
    assert!(t.subsec_nanos() < 2_000_000_000);
    assert!(Timestamp::from_unix(t.seconds(), t.subsec_nanos()).is_some());
}
