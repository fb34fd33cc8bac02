use gapix_core::dates::{format_utc_date, parse_utc_date};
use gapix_core::error::GapixError;
use gapix_core::model::{validate_degrees, validate_dgps_station_id, Bounds, FixType};
use gapix_core::text::{
    bytes_eq, format_decimal, format_fixed, format_integer, format_unsigned, parse_decimal,
    parse_integer, str_eq,
};

#[test]
fn decimals_are_read_as_fixed_point() {
    assert_eq!(parse_decimal("55.20625", 7), Some(552_062_500));
    assert_eq!(parse_decimal("-11.450350", 7), Some(-114_503_500));
    assert_eq!(parse_decimal("158.399993896484375", 3), Some(158_399));
    assert_eq!(parse_decimal("+1.5", 3), Some(1_500));
    assert_eq!(parse_decimal("1", 3), Some(1_000));
    assert_eq!(parse_decimal("1.", 3), Some(1_000));
    assert_eq!(parse_decimal(".5", 3), Some(500));
    assert_eq!(parse_decimal("-.5", 3), Some(-500));
    assert_eq!(parse_decimal("0", 0), Some(0));
    assert_eq!(parse_decimal("-0", 3), Some(0));
    assert_eq!(parse_decimal("007", 0), Some(7));
    assert_eq!(parse_decimal("12.9", 0), Some(12));
    assert_eq!(parse_decimal("0.0009", 3), Some(0));
    assert_eq!(parse_decimal("9223372036854775807", 0), Some(i64::MAX));
    assert_eq!(parse_decimal("-9223372036854775808", 0), Some(i64::MIN));
    assert_eq!(parse_decimal("9223372036854775.807", 3), Some(i64::MAX));
}

#[test]
fn what_is_no_decimal_is_refused() {
    for text in [
        "", "-", "+", ".", "-.", "1ee5", "1.2.3", " 1", "1 ", "1,5", "abc", "--1", "+-1", "1-", "inf",
        "NaN", "0x10", "１",
    ] {
        assert_eq!(parse_decimal(text, 3), None, "{text:?}");
    }
    assert_eq!(parse_decimal("9223372036854775808", 0), None);
    assert_eq!(parse_decimal("-9223372036854775809", 0), None);
    assert_eq!(parse_decimal("9223372036854775.808", 3), None);
    assert_eq!(parse_decimal("99999999999999999999999999", 0), None);
    assert_eq!(parse_decimal("18446744073709551616", 0), None);
}

#[test]
fn whole_numbers_take_no_point() {
    assert_eq!(parse_integer("42"), Some(42));
    assert_eq!(parse_integer("-1"), Some(-1));
    assert_eq!(parse_integer("+7"), Some(7));
    assert_eq!(parse_integer("42.0"), None);
    assert_eq!(parse_integer("42."), None);
    assert_eq!(parse_integer(""), None);
}

#[test]
fn numbers_are_written_without_waste() {
    assert_eq!(format_unsigned(0), "0");
    assert_eq!(format_unsigned(u64::MAX), "18446744073709551615");
    assert_eq!(format_integer(-42), "-42");
    assert_eq!(format_integer(i64::MIN), "-9223372036854775808");
    assert_eq!(format_decimal(552_062_500, 7), "55.20625");
    assert_eq!(format_decimal(-114_503_500, 7), "-11.45035");
    assert_eq!(format_decimal(100_000_000, 7), "10");
    assert_eq!(format_decimal(1, 7), "0.0000001");
    assert_eq!(format_decimal(-500, 3), "-0.5");
    assert_eq!(format_decimal(0, 3), "0");
    assert_eq!(format_decimal(1_050, 3), "1.05");
    assert_eq!(format_decimal(i64::MIN, 3), "-9223372036854775.808");
    assert_eq!(format_decimal(7, 0), "7");
}

#[test]
fn fixed_places_round_to_the_nearest() {
    assert_eq!(format_fixed(552_062_500, 7, 6), "55.206250");
    assert_eq!(format_fixed(552_062_504, 7, 6), "55.206250");
    assert_eq!(format_fixed(552_062_505, 7, 6), "55.206251");
    assert_eq!(format_fixed(-552_062_505, 7, 6), "-55.206251");
    assert_eq!(format_fixed(12_349, 3, 1), "12.3");
    assert_eq!(format_fixed(12_350, 3, 1), "12.4");
    assert_eq!(format_fixed(999, 3, 0), "1");
    assert_eq!(format_fixed(12_000, 3, 3), "12.000");
    assert_eq!(format_fixed(0, 3, 1), "0.0");
}

#[test]
fn written_numbers_read_back() {
    for v in [0i64, 1, -1, 999, 1_000, -1_001, 552_062_500, i64::MAX, i64::MIN, 123_456_789_012] {
        for scale in [0u32, 3, 7, 18] {
            assert_eq!(parse_decimal(&format_decimal(v, scale), scale), Some(v), "{v} at {scale}");
        }
        assert_eq!(parse_integer(&format_integer(v)), Some(v));
    }
}

#[test]
fn texts_compare_by_their_characters() {
    assert!(str_eq("trkpt", "trkpt"));
    assert!(!str_eq("trkpt", "trkpT"));
    assert!(!str_eq("trk", "trkpt"));
    assert!(str_eq("", ""));
    assert!(str_eq("métadonnées", "métadonnées"));
    assert!(bytes_eq(&[1, 2, 3], &[1, 2, 3]));
    assert!(!bytes_eq(&[1, 2, 3], &[1, 2, 4]));
}

#[test]
fn instants_are_read_and_written_by_the_calendar() {
    assert_eq!(parse_utc_date("2024-02-02T10:10:54.000Z").unwrap(), 1_706_868_654_000);
    assert_eq!(parse_utc_date("2024-02-02T11:10:54.250+01:00").unwrap(), 1_706_868_654_250);
    assert_eq!(parse_utc_date("1970-01-01T00:00:00Z").unwrap(), 0);
    match parse_utc_date("2024-02-30T10:10:54Z") {
        Err(GapixError::DateParseFailure(_)) => {}
        x => panic!("Unexpected result: {:?}", x),
    }
    assert_eq!(format_utc_date(1_706_868_654_000).unwrap(), "2024-02-02T10:10:54Z");
    assert_eq!(format_utc_date(1_706_868_654_999).unwrap(), "2024-02-02T10:10:54.999Z");
    assert_eq!(format_utc_date(1_706_868_654_250).unwrap(), "2024-02-02T10:10:54.250Z");
    for instant in [0, 1, 999, 1_706_868_654_250, -1, -1_000, 253_402_300_799_999] {
        assert_eq!(parse_utc_date(&format_utc_date(instant).unwrap()).unwrap(), instant);
    }
    assert_eq!(format_utc_date(0).unwrap(), "1970-01-01T00:00:00Z");
    match format_utc_date(i64::MAX) {
        Err(GapixError::DateFormatFailure(_)) => {}
        x => panic!("Unexpected result: {:?}", x),
    }
}

#[test]
fn values_out_of_range_are_refused_with_the_value() {
    assert_eq!(validate_degrees(0).unwrap(), 0);
    assert_eq!(validate_degrees(359_999).unwrap(), 359_999);
    assert!(matches!(validate_degrees(360_000), Err(GapixError::InvalidDegrees(360_000))));
    assert!(matches!(validate_degrees(-1), Err(GapixError::InvalidDegrees(-1))));
    assert_eq!(validate_dgps_station_id(0).unwrap(), 0);
    assert_eq!(validate_dgps_station_id(1023).unwrap(), 1023);
    assert!(matches!(validate_dgps_station_id(1024), Err(GapixError::InvalidDGPSStationId(1024))));
    assert!(matches!(validate_dgps_station_id(-1), Err(GapixError::InvalidDGPSStationId(-1))));
    assert!(Bounds::new(-900_000_000, -1_800_000_000, 900_000_000, 1_800_000_000).is_ok());
    assert!(matches!(
        Bounds::new(-900_000_001, 0, 0, 0),
        Err(GapixError::InvalidLatitude(-900_000_001))
    ));
    assert!(matches!(
        Bounds::new(0, 1_800_000_001, 0, 0),
        Err(GapixError::InvalidLongitude(1_800_000_001))
    ));
    assert!(matches!(Bounds::new(0, 0, 900_000_001, 0), Err(GapixError::InvalidLatitude(_))));
    assert!(matches!(Bounds::new(0, 0, 0, -1_800_000_001), Err(GapixError::InvalidLongitude(_))));
}

#[test]
fn fix_types_have_their_words() {
    for (fix, word) in [
        (FixType::NoFix, "none"),
        (FixType::TwoDimensional, "2d"),
        (FixType::ThreeDimensional, "3d"),
        (FixType::DGPS, "dgps"),
        (FixType::PPS, "pps"),
    ] {
        assert_eq!(fix.as_str(), word);
        assert_eq!(FixType::from_text(word).unwrap(), fix);
    }
    assert!(matches!(FixType::from_text("3D"), Err(GapixError::InvalidFixType(w)) if w == "3D"));
}

#[test]
fn exponent_moves_the_point() {
    assert_eq!(parse_decimal("1.5e2", 3), Some(150_000));
    assert_eq!(parse_decimal("1.5E2", 3), Some(150_000));
    assert_eq!(parse_decimal("15e-1", 3), Some(1_500));
    assert_eq!(parse_decimal("15E+1", 3), Some(150_000));
    assert_eq!(parse_decimal("-2.5e-3", 3), Some(-2));
    assert_eq!(parse_decimal("5.3206250e1", 7), Some(532_062_500));
    assert_eq!(parse_decimal("1e15", 3), Some(1_000_000_000_000_000_000));
    assert_eq!(parse_decimal("0e0", 0), Some(0));
}

#[test]
fn exponent_that_is_none_or_moves_the_point_too_far_is_refused() {
    assert_eq!(parse_decimal("1e", 3), None);
    assert_eq!(parse_decimal("e5", 3), None);
    assert_eq!(parse_decimal("1e0.5", 3), None);
    assert_eq!(parse_decimal("1e2e3", 3), None);
    assert_eq!(parse_decimal("1e-4", 3), None);
    assert_eq!(parse_decimal("1e16", 3), None);
    assert_eq!(parse_decimal("9.3e15", 3), None);
    assert_eq!(parse_integer("1e2"), None);
}
