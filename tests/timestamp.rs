use himawari::pipeline::{output_file_name, should_skip};
use himawari::output_format::OutputFormat;
use himawari::timestamp::{ImageTimestamp, PARSE_ERROR_KIND};

#[test]
fn metadata_date_is_read_as_utc_fields() {
    let t = ImageTimestamp::resolve("2024-03-01 04:20:00").ok().expect("date rejected");
    assert_eq!(t, ImageTimestamp { year: 2024, month: 3, day: 1, hour: 4, minute: 20, second: 0 });
}

#[test]
fn leap_second_is_second_sixty() {
    let t = ImageTimestamp::resolve("2016-12-31 23:59:60").ok().expect("leap second rejected");
    assert_eq!(t.second, 60);
    assert_eq!(ImageTimestamp::from_fields(2016, 12, 31, 23, 59, 59, 1_000_000_000).second, 60);
    assert_eq!(ImageTimestamp::from_fields(2016, 12, 31, 23, 59, 59, 999_999_999).second, 59);
}

#[test]
fn malformed_dates_are_parse_errors() {
    for s in ["", "2024-03-01", "2024-13-01 00:00:00", "2024-02-30 00:00:00", "yesterday"] {
        match ImageTimestamp::resolve(s) {
            Ok(_) => panic!("{} was accepted", s),
            Err(e) => {
                assert_eq!(e.kind, PARSE_ERROR_KIND);
                assert!(e.cause.is_some());
                assert!(e.description().starts_with("[chrono::ParseError] "));
            }
        }
    }
}

#[test]
fn file_name_carries_date_and_time() {
    let t = ImageTimestamp::resolve("2024-03-01 04:20:00").ok().unwrap();
    assert_eq!(output_file_name(&t, false, OutputFormat::JPEG), "himawari8_20240301_042000.jpeg");
    assert_eq!(output_file_name(&t, false, OutputFormat::PNG), "himawari8_20240301_042000.png");
}

#[test]
fn store_latest_only_uses_one_name() {
    let t = ImageTimestamp::resolve("2024-03-01 04:20:00").ok().unwrap();
    assert_eq!(output_file_name(&t, true, OutputFormat::PNG), "himawari8_latest.png");
    assert_eq!(output_file_name(&t, true, OutputFormat::JPEG), "himawari8_latest.jpeg");
}

#[test]
fn only_an_unforced_timestamped_existing_file_skips() {
    assert!(should_skip(true, false, false));
    assert!(!should_skip(true, true, false));
    assert!(!should_skip(true, false, true));
    assert!(!should_skip(false, false, false));
}
