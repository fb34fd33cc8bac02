use gapix_core::error::GapixError;
use gapix_core::model::Gpx;
use fitparser::profile::MesgNum;
use fitparser::{FitDataField, FitDataRecord, Value};
use gapix_core::read::fit::{
    count_messages, ensure_default_track, plain_messages, point_of_record, read_fit_from_reader,
    read_fit_from_slice, read_fit_messages, widen, FitField, FitKind, FitMessage, FitValue,
};
use gapix_core::read::{is_fit_file, read_input_file};
use gapix_core::widen::{thousandths_of_float32, thousandths_of_float64};

fn field(name: &str, value: FitValue) -> FitField {
    FitField { name: name.to_string(), value }
}

fn text(name: &str, value: &str) -> FitField {
    field(name, FitValue::Text(value.to_string()))
}

fn message(kind: FitKind, fields: Vec<FitField>) -> FitMessage {
    FitMessage { kind, fields }
}

fn file_id() -> FitMessage {
    message(
        FitKind::FileId,
        vec![text("type", "activity"), field("time_created", FitValue::Timestamp(1_700_000_000_000))],
    )
}

fn session(sport: Option<&str>, sub_sport: Option<&str>) -> FitMessage {
    let mut fields = Vec::new();
    if let Some(s) = sport {
        fields.push(text("sport", s));
    }
    if let Some(s) = sub_sport {
        fields.push(text("sub_sport", s));
    }
    message(FitKind::Session, fields)
}

/// A record at 45 degrees north, 90 degrees west.
fn record(at: i64) -> FitMessage {
    message(
        FitKind::Record,
        vec![
            field("position_lat", FitValue::Integer(536_870_925)),
            field("position_long", FitValue::Integer(-1_073_741_850)),
            field("enhanced_altitude", FitValue::Float64(123.4f64.to_bits())),
            field("timestamp", FitValue::Timestamp(at)),
            field("temperature", FitValue::Integer(21)),
            field("heart_rate", FitValue::Integer(142)),
        ],
    )
}

fn record_without_position(at: i64) -> FitMessage {
    message(
        FitKind::Record,
        vec![
            field("enhanced_altitude", FitValue::Float64(123.4f64.to_bits())),
            field("timestamp", FitValue::Timestamp(at)),
        ],
    )
}

fn points_of(gpx: &Gpx) -> usize {
    gpx.tracks.iter().flat_map(|t| t.segments.iter()).map(|s| s.points.len()).sum()
}

#[test]
fn activity_with_a_session_and_records_makes_a_track() {
    let messages = vec![
        file_id(),
        session(Some("cycling"), Some("road")),
        record(1_700_000_001_000),
        record(1_700_000_002_000),
        message(FitKind::Activity, vec![]),
    ];
    let gpx = read_fit_from_reader(&messages).unwrap();
    assert_eq!(gpx.creator, "gapix_core");
    assert_eq!(gpx.version, "1.1");
    assert_eq!(gpx.declaration.version, "1.0");
    assert_eq!(gpx.declaration.encoding, Some("UTF-8".to_string()));
    assert_eq!(gpx.metadata.description, Some("Parsed from a FIT file".to_string()));
    assert_eq!(gpx.metadata.time, Some(1_700_000_000_000));
    assert_eq!(gpx.tracks.len(), 1);
    let track = &gpx.tracks[0];
    assert_eq!(track.name, Some("Track 1".to_string()));
    assert_eq!(track.type_, Some("cycling - road".to_string()));
    assert_eq!(track.segments.len(), 1);
    let points = &track.segments[0].points;
    assert_eq!(points.len(), 2);
    assert_eq!(points[0].lat, 450_000_000);
    assert_eq!(points[0].lon, -900_000_000);
    assert_eq!(points[0].ele, Some(123_400));
    assert_eq!(points[0].time, Some(1_700_000_001_000));
    let readings = points[0].garmin_extensions.unwrap();
    assert_eq!(readings.air_temp, Some(21_000));
    assert_eq!(readings.heart_rate, Some(142));
    assert_eq!(readings.cadence, None);
    assert_eq!(points[1].time, Some(1_700_000_002_000));
}

#[test]
fn record_without_position_is_dropped_and_reading_goes_on() {
    let messages = vec![
        file_id(),
        session(Some("cycling"), None),
        record(1_000),
        record_without_position(2_000),
        record(3_000),
        record_without_position(4_000),
        record(5_000),
    ];
    let gpx = read_fit_from_reader(&messages).unwrap();
    assert_eq!(points_of(&gpx), 3);
    let times: Vec<_> = gpx.tracks[0].segments[0].points.iter().map(|p| p.time.unwrap()).collect();
    assert_eq!(times, vec![1_000, 3_000, 5_000]);
}

#[test]
fn record_before_any_session_goes_to_a_default_track() {
    let messages = vec![file_id(), record(1_000), session(Some("running"), None), record(2_000)];
    let gpx = read_fit_from_reader(&messages).unwrap();
    assert_eq!(gpx.tracks.len(), 2);
    assert_eq!(gpx.tracks[0].name, Some("Track 0".to_string()));
    assert_eq!(gpx.tracks[0].type_, Some("unknown".to_string()));
    assert_eq!(gpx.tracks[0].segments[0].points.len(), 1);
    assert_eq!(gpx.tracks[1].name, Some("Track 2".to_string()));
    assert_eq!(gpx.tracks[1].type_, Some("running".to_string()));
    assert_eq!(gpx.tracks[1].segments[0].points.len(), 1);
}

#[test]
fn dropped_record_still_makes_the_default_track() {
    let messages = vec![file_id(), record_without_position(1_000)];
    let gpx = read_fit_from_reader(&messages).unwrap();
    assert_eq!(gpx.tracks.len(), 1);
    assert_eq!(points_of(&gpx), 0);
}

#[test]
fn session_type_comes_from_sport_and_sub_sport() {
    let messages = vec![
        file_id(),
        session(Some("cycling"), Some("road")),
        session(Some("cycling"), None),
        session(None, Some("trail")),
        session(None, None),
    ];
    let gpx = read_fit_from_reader(&messages).unwrap();
    let types: Vec<_> = gpx.tracks.iter().map(|t| t.type_.clone().unwrap()).collect();
    assert_eq!(types, vec!["cycling - road", "cycling", "trail", "unknown"]);
    let names: Vec<_> = gpx.tracks.iter().map(|t| t.name.clone().unwrap()).collect();
    assert_eq!(names, vec!["Track 1", "Track 2", "Track 3", "Track 4"]);
}

#[test]
fn file_that_is_no_activity_is_refused() {
    let messages = vec![message(
        FitKind::FileId,
        vec![text("type", "course"), field("time_created", FitValue::Timestamp(0))],
    )];
    match read_fit_from_reader(&messages) {
        Err(GapixError::MultipleTracksFound) => {}
        x => panic!("Unexpected result: {:?}", x),
    }
}

#[test]
fn file_that_does_not_say_what_it_is_is_refused() {
    let messages = vec![session(Some("cycling"), None), record(1_000)];
    match read_fit_from_reader(&messages) {
        Err(GapixError::ElementNotFound(name)) if name == "file_id" => {}
        x => panic!("Unexpected result: {:?}", x),
    }
    match read_fit_from_reader(&vec![]) {
        Err(GapixError::ElementNotFound(_)) => {}
        x => panic!("Unexpected result: {:?}", x),
    }
}

#[test]
fn file_identity_without_its_fields_is_refused() {
    let no_type = vec![message(FitKind::FileId, vec![field("time_created", FitValue::Timestamp(0))])];
    match read_fit_from_reader(&no_type) {
        Err(GapixError::FieldNotFound(name)) if name == "type" => {}
        x => panic!("Unexpected result: {:?}", x),
    }
    let no_time = vec![message(FitKind::FileId, vec![text("type", "activity")])];
    match read_fit_from_reader(&no_time) {
        Err(GapixError::FieldNotFound(name)) if name == "time_created" => {}
        x => panic!("Unexpected result: {:?}", x),
    }
    let wrong = vec![message(FitKind::FileId, vec![field("type", FitValue::Integer(4))])];
    match read_fit_from_reader(&wrong) {
        Err(GapixError::NumericConversionError(_)) => {}
        x => panic!("Unexpected result: {:?}", x),
    }
}

#[test]
fn record_needs_a_position_and_a_time() {
    assert!(point_of_record(&record(1)).is_ok());
    let mut no_altitude = record(1);
    no_altitude.fields.remove(2);
    let point = point_of_record(&no_altitude).unwrap();
    assert_eq!(point.ele, None);
    assert_eq!(point.time, Some(1));
    let mut no_position = record(1);
    no_position.fields.remove(0);
    match point_of_record(&no_position) {
        Err(GapixError::FieldNotFound(name)) if name == "position_lat" => {}
        x => panic!("Unexpected result: {:?}", x),
    }
    let mut plain_altitude = record(1);
    plain_altitude.fields[2] = field("altitude", FitValue::Integer(250));
    assert_eq!(point_of_record(&plain_altitude).unwrap().ele, Some(250_000));
    let mut no_time = record(1);
    no_time.fields.remove(3);
    match point_of_record(&no_time) {
        Err(GapixError::FieldNotFound(name)) if name == "timestamp" => {}
        x => panic!("Unexpected result: {:?}", x),
    }
    let mut off_the_globe = record(1);
    off_the_globe.fields[0] = field("position_lat", FitValue::Integer(1_200_000_000));
    match point_of_record(&off_the_globe) {
        Err(GapixError::InvalidLatitude(_)) => {}
        x => panic!("Unexpected result: {:?}", x),
    }
    let mut bare = record(1);
    bare.fields.truncate(4);
    assert_eq!(point_of_record(&bare).unwrap().garmin_extensions, None);
}

#[test]
fn every_numeric_wire_type_widens_to_thousandths() {
    assert_eq!(widen(&FitValue::Integer(21)).unwrap(), 21_000);
    assert_eq!(widen(&FitValue::Integer(-7)).unwrap(), -7_000);
    assert_eq!(widen(&FitValue::Unsigned(5)).unwrap(), 5_000);
    assert_eq!(widen(&FitValue::Float64(123.4f64.to_bits())).unwrap(), 123_400);
    assert_eq!(widen(&FitValue::Float64((-0.5f64).to_bits())).unwrap(), -500);
    assert_eq!(widen(&FitValue::Float32(2.5f32.to_bits())).unwrap(), 2_500);
    for refused in [
        FitValue::Integer(i64::MAX),
        FitValue::Unsigned(u64::MAX),
        FitValue::Float64(f64::NAN.to_bits()),
        FitValue::Float64(f64::INFINITY.to_bits()),
        FitValue::Float64(1e300f64.to_bits()),
        FitValue::Text("12".to_string()),
        FitValue::Timestamp(12),
        FitValue::Other,
    ] {
        match widen(&refused) {
            Err(GapixError::NumericConversionError(_)) => {}
            x => panic!("Unexpected result for {:?}: {:?}", refused, x),
        }
    }
}

#[test]
fn floats_widen_exactly_and_towards_zero() {
    for (value, expected) in [
        (0.0f64, Some(0)),
        (-0.0, Some(0)),
        (1.0, Some(1_000)),
        (0.001, Some(1)),
        (0.0009999, Some(0)),
        (-0.0009999, Some(0)),
        (1.9999, Some(1_999)),
        (-1.9999, Some(-1_999)),
        (158.399993896484375, Some(158_399)),
        (4503599627370496.0, Some(4_503_599_627_370_496_000)),
        (9007199254740992.0, Some(9_007_199_254_740_992_000)),
        (9223372036854774.0, Some(9_223_372_036_854_774_000)),
        (9223372036854776.0, None),
        (5e-324, Some(0)),
        (f64::MAX, None),
        (f64::NEG_INFINITY, None),
    ] {
        assert_eq!(thousandths_of_float64(value.to_bits()), expected, "{value}");
    }
    for (value, expected) in [
        (0.0f32, Some(0)),
        (1.5, Some(1_500)),
        (-21.25, Some(-21_250)),
        (1e-45, Some(0)),
        (f32::MAX, None),
        (f32::NAN, None),
    ] {
        assert_eq!(thousandths_of_float32(value.to_bits()), expected, "{value}");
    }
}

#[test]
fn default_track_is_made_once() {
    let mut gpx = Gpx::default();
    ensure_default_track(&mut gpx);
    ensure_default_track(&mut gpx);
    assert_eq!(gpx.tracks.len(), 1);
    assert_eq!(gpx.tracks[0].name, Some("Track 0".to_string()));
    assert_eq!(gpx.tracks[0].segments.len(), 1);
}

#[test]
fn bytes_that_are_no_device_file_are_refused() {
    match read_fit_from_slice(b"this is not a device file", &fitparser::from_bytes) {
        Err(GapixError::FitError(_)) => {}
        x => panic!("Unexpected result: {:?}", x),
    }
    match read_input_file("ride.FIT", b"this is not a device file", &fitparser::from_bytes) {
        Err(GapixError::FitError(_)) => {}
        x => panic!("Unexpected result: {:?}", x),
    }
}

#[test]
fn file_type_goes_by_the_extension() {
    for name in ["ride.fit", "ride.FIT", "ride.Fit", "/home/me/rides/today.fit", "a.b.fit"] {
        assert!(is_fit_file(name), "{name}");
    }
    for name in ["ride.gpx", "ride", "fit", ".fit", "dir/.fit", "ride.fit.gpx", "ride.fits", "ride.fit/x", ""] {
        assert!(!is_fit_file(name), "{name}");
    }
}

fn decoder_field(name: &str, value: Value) -> FitDataField {
    FitDataField::new(name.to_string(), 0, None, value, String::new())
}

fn decoder_record(kind: MesgNum, fields: Vec<(&str, Value)>) -> FitDataRecord {
    let mut record = FitDataRecord::new(kind);
    for (name, value) in fields {
        record.push(decoder_field(name, value));
    }
    record
}

#[test]
fn every_wire_type_is_taken_over_into_its_plain_value() {
    let instant = chrono::DateTime::from_timestamp_millis(1_700_000_000_123)
        .unwrap()
        .with_timezone(&chrono::Local);
    let record = decoder_record(
        MesgNum::Record,
        vec![
            ("byte", Value::Byte(200)),
            ("uint8", Value::UInt8(201)),
            ("uint16", Value::UInt16(60_000)),
            ("uint32", Value::UInt32(4_000_000_000)),
            ("uint8z", Value::UInt8z(202)),
            ("uint16z", Value::UInt16z(60_001)),
            ("uint32z", Value::UInt32z(4_000_000_001)),
            ("sint8", Value::SInt8(-100)),
            ("sint16", Value::SInt16(-30_000)),
            ("sint32", Value::SInt32(-2_000_000_000)),
            ("sint64", Value::SInt64(-9_000_000_000_000)),
            ("uint64", Value::UInt64(18_000_000_000_000_000_000)),
            ("uint64z", Value::UInt64z(18_000_000_000_000_000_001)),
            ("float64", Value::Float64(1.5)),
            ("float32", Value::Float32(-2.25)),
            ("string", Value::String("cycling".to_string())),
            ("timestamp", Value::Timestamp(instant)),
            ("enum", Value::Enum(3)),
            ("array", Value::Array(vec![Value::UInt8(1)])),
            ("invalid", Value::Invalid),
        ],
    );
    let messages = plain_messages(&vec![record]);
    assert_eq!(
        messages,
        vec![message(
            FitKind::Record,
            vec![
                field("byte", FitValue::Integer(200)),
                field("uint8", FitValue::Integer(201)),
                field("uint16", FitValue::Integer(60_000)),
                field("uint32", FitValue::Integer(4_000_000_000)),
                field("uint8z", FitValue::Integer(202)),
                field("uint16z", FitValue::Integer(60_001)),
                field("uint32z", FitValue::Integer(4_000_000_001)),
                field("sint8", FitValue::Integer(-100)),
                field("sint16", FitValue::Integer(-30_000)),
                field("sint32", FitValue::Integer(-2_000_000_000)),
                field("sint64", FitValue::Integer(-9_000_000_000_000)),
                field("uint64", FitValue::Unsigned(18_000_000_000_000_000_000)),
                field("uint64z", FitValue::Unsigned(18_000_000_000_000_000_001)),
                field("float64", FitValue::Float64(1.5f64.to_bits())),
                field("float32", FitValue::Float32((-2.25f32).to_bits())),
                text("string", "cycling"),
                field("timestamp", FitValue::Timestamp(1_700_000_000_123)),
                field("enum", FitValue::Other),
                field("array", FitValue::Other),
                field("invalid", FitValue::Other),
            ],
        )]
    );
}

#[test]
fn kinds_that_are_not_read_are_taken_together() {
    let records = vec![
        decoder_record(MesgNum::FileId, vec![]),
        decoder_record(MesgNum::Activity, vec![]),
        decoder_record(MesgNum::Session, vec![]),
        decoder_record(MesgNum::Record, vec![]),
        decoder_record(MesgNum::Lap, vec![]),
        decoder_record(MesgNum::Event, vec![("event", Value::String("timer".to_string()))]),
    ];
    let kinds: Vec<FitKind> = plain_messages(&records).iter().map(|m| m.kind).collect();
    assert_eq!(
        kinds,
        vec![
            FitKind::FileId,
            FitKind::Activity,
            FitKind::Session,
            FitKind::Record,
            FitKind::Other,
            FitKind::Other,
        ]
    );
    assert_eq!(plain_messages(&Vec::new()), Vec::<FitMessage>::new());
}

#[test]
fn messages_of_the_decoder_make_the_file() {
    let degrees_45 = 536_870_912;
    let at = chrono::DateTime::from_timestamp_millis(1_700_000_001_000)
        .unwrap()
        .with_timezone(&chrono::Local);
    let records = vec![
        decoder_record(
            MesgNum::FileId,
            vec![("type", Value::String("activity".to_string())), ("time_created", Value::Timestamp(at))],
        ),
        decoder_record(MesgNum::Session, vec![("sport", Value::String("cycling".to_string()))]),
        decoder_record(
            MesgNum::Record,
            vec![
                ("position_lat", Value::SInt32(degrees_45)),
                ("position_long", Value::SInt32(-2 * degrees_45)),
                ("enhanced_altitude", Value::Float64(12.5)),
                ("timestamp", Value::Timestamp(at)),
            ],
        ),
    ];
    let gpx = read_fit_from_reader(&plain_messages(&records)).unwrap();
    assert_eq!(gpx.tracks.len(), 1);
    assert_eq!(points_of(&gpx), 1);
    let point = &gpx.tracks[0].segments[0].points[0];
    assert_eq!(point.ele, Some(12_500));
    assert_eq!(point.time, Some(1_700_000_001_000));
}

#[test]
fn bytes_that_the_decoder_refuses_give_its_failure() {
    assert!(matches!(read_fit_messages(b"no device file at all", &fitparser::from_bytes), Err(GapixError::FitError(_))));
}

fn ride_of_the_decoder() -> Vec<FitDataRecord> {
    let at = |seconds: i64| {
        Value::Timestamp(
            chrono::DateTime::from_timestamp_millis(1_700_000_000_000 + seconds * 1000)
                .unwrap()
                .with_timezone(&chrono::Local),
        )
    };
    vec![
        decoder_record(
            MesgNum::FileId,
            vec![("type", Value::String("activity".to_string())), ("time_created", at(0))],
        ),
        decoder_record(MesgNum::Session, vec![("sport", Value::String("cycling".to_string()))]),
        decoder_record(
            MesgNum::Record,
            vec![
                ("position_lat", Value::SInt32(536_870_912)),
                ("position_long", Value::SInt32(-1_073_741_824)),
                ("altitude", Value::UInt16(250)),
                ("timestamp", at(1)),
            ],
        ),
        decoder_record(MesgNum::Record, vec![("timestamp", at(2))]),
        decoder_record(
            MesgNum::Record,
            vec![
                ("position_lat", Value::SInt32(536_870_913)),
                ("position_long", Value::SInt32(-1_073_741_825)),
                ("timestamp", at(3)),
            ],
        ),
        decoder_record(MesgNum::Activity, vec![]),
    ]
}

#[test]
fn file_is_the_one_made_by_what_the_decoder_returns() {
    let decoder = |_: &[u8]| -> Result<Vec<FitDataRecord>, Box<fitparser::ErrorKind>> {
        Ok(ride_of_the_decoder())
    };
    let gpx = read_fit_from_slice(b"bytes of a ride", &decoder).unwrap();
    assert_eq!(gpx.filename, None);
    assert_eq!(gpx.tracks.len(), 1);
    let points = &gpx.tracks[0].segments[0].points;
    assert_eq!(points.len(), 2);
    assert_eq!(points[0].ele, Some(250_000));
    assert_eq!(points[0].time, Some(1_700_000_001_000));
    assert_eq!(points[1].ele, None);
    assert_eq!(points[1].time, Some(1_700_000_003_000));
    let named = read_input_file("rides/today.fit", b"bytes of a ride", &decoder).unwrap();
    assert_eq!(named.filename, Some("rides/today.fit".to_string()));
    assert_eq!(named.tracks, gpx.tracks);
    let messages = read_fit_messages(b"bytes of a ride", &decoder).unwrap();
    assert_eq!(messages, plain_messages(&ride_of_the_decoder()));
}

#[test]
fn document_is_read_whatever_the_decoder() {
    let decoder = |_: &[u8]| -> Result<Vec<FitDataRecord>, Box<fitparser::ErrorKind>> {
        Ok(ride_of_the_decoder())
    };
    match read_input_file("ride.gpx", b"bytes of a ride", &decoder) {
        Err(GapixError::FitError(_)) | Ok(_) => panic!("read as a device file"),
        Err(_) => {}
    }
}

#[test]
fn record_without_altitude_is_a_point_without_elevation() {
    let messages = plain_messages(&ride_of_the_decoder());
    let gpx = read_fit_from_reader(&messages).unwrap();
    assert_eq!(points_of(&gpx), 2);
    assert_eq!(gpx.tracks[0].segments[0].points[1].ele, None);
}

#[test]
fn messages_are_counted_by_kind() {
    let messages = plain_messages(&ride_of_the_decoder());
    assert_eq!(count_messages(&messages, FitKind::Activity), 1);
    assert_eq!(count_messages(&messages, FitKind::Record), 3);
    assert_eq!(count_messages(&messages, FitKind::Other), 0);
    assert_eq!(count_messages(&Vec::new(), FitKind::Activity), 0);
}
