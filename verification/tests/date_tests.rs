use morelike::date::{display_date, MAX_DATE_SECS};

#[test]
fn dates_have_the_date_and_minute_layout() {
    for secs in [0u64, 86_400 * 365 * 30 + 12_345, 1_600_000_000] {
        let d = display_date(secs);
        assert_eq!(d.chars().count(), 16, "{}", d);
        let b = d.as_bytes();
        assert_eq!(b[4], b'-');
        assert_eq!(b[7], b'-');
        assert_eq!(b[10], b' ');
        assert_eq!(b[13], b':');
    }
    assert!(display_date(1_600_000_000).starts_with("2020-09-1"));
    assert!(MAX_DATE_SECS > 1_600_000_000);
}
