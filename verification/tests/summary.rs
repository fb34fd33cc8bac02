use gapix_core::detect::{
    classify_stage, detect_stages, find_resume_index, find_stop_index, get_next_stage,
    get_starting_stage_type,
};
use gapix_core::enrich::{enrich_trackpoints, to_enriched_gpx, EnrichedGpx};
use gapix_core::error::GapixError;
use gapix_core::extrema::{
    find_air_temps, find_heart_rates, find_max_speed, find_min_and_max_elevation_points,
};
use gapix_core::merge::join_input_files;
use gapix_core::model::{GarminTrackpointExtensions, Gpx, Track, TrackSegment, Waypoint};
use gapix_core::point::{EnrichedTrackPoint, Position};
use gapix_core::read::waypoint::with_lat_lon;
use gapix_core::stage::{Stage, StageDetectionParameters, StageList, StageType};
use geo::{Distance, Geodesic, Point};

fn along(a: Position, b: Position) -> u64 {
    (a.lon - b.lon).unsigned_abs() + (a.lat - b.lat).unsigned_abs()
}

/// The distance over the ellipsoid, in millimetres.
fn geodesic(a: Position, b: Position) -> u64 {
    let from = Point::new(a.lon as f64 / 1e7, a.lat as f64 / 1e7);
    let to = Point::new(b.lon as f64 / 1e7, b.lat as f64 / 1e7);
    (Geodesic::distance(from, to) * 1000.0).round() as u64
}

fn params() -> StageDetectionParameters {
    StageDetectionParameters {
        stopped_speed_kmh: 2_000,
        min_metres_to_resume: 10_000,
        min_duration_seconds: 5_000,
    }
}

/// (millimetres east, milliseconds, elevation, heart rate, air temperature)
type Fix = (i64, i64, Option<i64>, Option<u8>, Option<i64>);

fn track(fixes: &[Fix]) -> EnrichedGpx {
    let mut points = Vec::new();
    for (i, (east, at, ele, hr, temp)) in fixes.iter().enumerate() {
        let mut p = EnrichedTrackPoint::new(i, 0, *east);
        p.time = Some(*at);
        p.ele = *ele;
        p.heart_rate = *hr;
        p.air_temp = *temp;
        points.push(p);
    }
    let mut gpx = EnrichedGpx::new(Some("ride.gpx".to_string()), points);
    enrich_trackpoints(&mut gpx, &along);
    gpx
}

fn ride() -> EnrichedGpx {
    track(&[
        (0, 0, Some(100_000), Some(90), Some(20_000)),
        (5_556, 1_000, Some(101_000), Some(120), Some(19_000)),
        (11_112, 2_000, Some(99_000), None, None),
        (16_668, 3_000, Some(104_000), Some(150), Some(21_500)),
        (16_668, 4_000, Some(104_000), Some(110), Some(21_500)),
        (16_668, 5_000, Some(104_000), Some(100), Some(22_000)),
        (16_668, 6_000, Some(104_000), Some(95), Some(22_500)),
        (16_668, 7_000, Some(104_000), Some(90), Some(23_000)),
        (16_668, 8_000, Some(104_000), Some(90), Some(23_000)),
        (27_668, 9_000, Some(103_000), Some(100), Some(22_000)),
        (33_224, 10_000, Some(98_000), Some(130), Some(-1_000)),
        (40_000, 11_000, Some(102_000), Some(151), Some(18_000)),
    ])
}

fn stages() -> (EnrichedGpx, StageList) {
    let gpx = ride();
    let stages = detect_stages(&gpx, params(), &along);
    (gpx, stages)
}

#[test]
fn stage_holds_its_bounds_and_the_track_start() {
    let (gpx, stages) = stages();
    assert_eq!(stages.len(), 3);
    let control = stages.get(1);
    assert_eq!(control.stage_type, StageType::Control);
    assert_eq!(control.track_start_point, gpx.points[0]);
    assert_eq!(control.start, gpx.points[4]);
    assert_eq!(control.end, gpx.points[9]);
    assert_eq!(*stages.first_point(), gpx.points[0]);
    assert_eq!(*stages.last_point(), gpx.points[11]);
}

#[test]
fn stage_extremes_are_the_first_of_equals() {
    let (gpx, stages) = stages();
    let moving = stages.get(0);
    assert_eq!(moving.min_elevation, Some(gpx.points[2]));
    assert_eq!(moving.max_elevation, Some(gpx.points[3]));
    // The first point of the track has no speed: no fastest point.
    assert_eq!(moving.max_speed, None);
    assert_eq!(moving.max_heart_rate, Some(gpx.points[3]));
    assert_eq!(moving.avg_heart_rate, Some(120_000));
    assert_eq!(moving.min_air_temp, Some(gpx.points[1]));
    assert_eq!(moving.max_air_temp, Some(gpx.points[3]));
    assert_eq!(moving.avg_air_temp, Some(20_166));

    let control = stages.get(1);
    assert_eq!(control.min_elevation, Some(gpx.points[9]));
    assert_eq!(control.max_elevation, Some(gpx.points[4]));
    assert_eq!(control.max_speed, Some(gpx.points[9]));
    assert_eq!(control.max_heart_rate, Some(gpx.points[4]));
    assert_eq!(control.min_air_temp, Some(gpx.points[4]));
    assert_eq!(control.max_air_temp, Some(gpx.points[7]));
    assert_eq!(control.avg_heart_rate, Some(97_500));
}

#[test]
fn missing_reading_invalidates_extremes_but_not_means() {
    let mut gpx = ride();
    gpx.points[1].ele = None;
    let (min, max) = find_min_and_max_elevation_points(&gpx, 0, 3);
    assert_eq!((min, max), (None, None));
    let (min, max) = find_min_and_max_elevation_points(&gpx, 2, 3);
    assert_eq!(min, Some(gpx.points[2]));
    assert_eq!(max, Some(gpx.points[3]));
    assert_eq!(find_max_speed(&gpx, 0, 3), None);
    assert_eq!(find_max_speed(&gpx, 1, 3), Some(gpx.points[1]));
    assert_eq!(find_max_speed(&gpx, 9, 11), Some(gpx.points[9]));
    let (max_hr, avg_hr) = find_heart_rates(&gpx, 2, 2);
    assert_eq!((max_hr, avg_hr), (None, None));
    let (max_hr, avg_hr) = find_heart_rates(&gpx, 0, 11);
    assert_eq!(max_hr, Some(gpx.points[11]));
    assert_eq!(avg_hr, Some(111_454));
    let (min_t, max_t, avg_t) = find_air_temps(&gpx, 2, 2);
    assert_eq!((min_t, max_t, avg_t), (None, None, None));
    let (min_t, max_t, avg_t) = find_air_temps(&gpx, 9, 11);
    assert_eq!(min_t, Some(gpx.points[10]));
    assert_eq!(max_t, Some(gpx.points[9]));
    assert_eq!(avg_t, Some(13_000));
}

#[test]
fn mean_of_negative_temperatures_rounds_towards_zero() {
    let gpx = track(&[
        (0, 0, None, Some(0), Some(-1_000)),
        (1, 1_000, None, Some(0), Some(-2_000)),
        (2, 2_000, None, Some(1), Some(-2_000)),
    ]);
    let (_, _, avg) = find_air_temps(&gpx, 0, 2);
    assert_eq!(avg, Some(-1_666));
    // A heart rate of nought is a reading all the same.
    let (max, avg) = find_heart_rates(&gpx, 0, 1);
    assert_eq!(max, Some(gpx.points[0]));
    assert_eq!(avg, Some(0));
    let (_, avg) = find_heart_rates(&gpx, 0, 2);
    assert_eq!(avg, Some(333));
}

#[test]
fn stage_measures_follow_from_its_ends() {
    let (_, stages) = stages();
    let first = stages.get(0);
    // The first point of the track ends no leg, so the stage that begins on
    // it has no start time and no duration.
    assert_eq!(first.duration(), None);
    assert_eq!(first.running_duration(), None);
    assert_eq!(first.average_speed_kmh(), None);
    assert_eq!(first.distance_metres(), 16_668);
    assert_eq!(first.distance_km(), 16);
    assert_eq!(first.running_distance_km(), 16);
    // Nor has the first point a running ascent or descent.
    assert_eq!(first.ascent_metres(), None);
    assert_eq!(first.running_ascent_metres(), Some(6_000));
    assert_eq!(first.running_descent_metres(), Some(2_000));

    let control = stages.get(1);
    assert_eq!(control.duration(), Some(6_000));
    assert_eq!(control.distance_metres(), 11_000);
    assert_eq!(control.average_speed_kmh(), Some(6_600));
    assert_eq!(control.ascent_metres(), Some(0));
    assert_eq!(control.descent_metres(), Some(1_000));
    assert_eq!(control.descent_rate_per_km(), Some(90_909));
    assert_eq!(control.ascent_rate_per_km(), Some(0));

    let last = stages.get(2);
    assert_eq!(last.duration(), Some(2_000));
    assert_eq!(last.distance_metres(), 6_776);
    assert_eq!(last.average_speed_kmh(), Some(12_196));
    assert_eq!(last.ascent_metres(), Some(4_000));
    assert_eq!(last.descent_metres(), Some(0));
    assert_eq!(last.running_ascent_metres(), Some(10_000));
    assert_eq!(last.running_descent_metres(), Some(8_000));
}

#[test]
fn stage_that_covers_no_distance_has_no_rate() {
    let gpx = track(&[
        (0, 0, Some(0), None, None),
        (0, 1_000, Some(5_000), None, None),
        (0, 2_000, Some(9_000), None, None),
    ]);
    let stage = get_next_stage(StageType::Moving, 1, &gpx, &params(), &along).unwrap();
    assert_eq!(stage.start.index, 1);
    assert_eq!(stage.end.index, 2);
    assert_eq!(stage.ascent_metres(), Some(4_000));
    assert_eq!(stage.ascent_rate_per_km(), None);
}

#[test]
fn list_totals_add_up_the_stages() {
    let (_, stages) = stages();
    assert_eq!(stages.distance_metres(), 16_668 + 11_000 + 6_776);
    assert_eq!(stages.distance_km(), 34);
    assert_eq!(stages.total_control_time(), Some(6_000));
    // The first stage has no ascent of its own to add.
    assert_eq!(stages.total_ascent_metres(), None);
    assert_eq!(stages.total_descent_metres(), None);
    assert_eq!(stages.end_time(), Some(11_000));
    assert_eq!(stages.start_time(), None);
    assert_eq!(stages.duration(), None);
    assert_eq!(stages.total_moving_time(), None);
    assert_eq!(stages.moving_percent(), None);
    assert_eq!(stages.controlling_percent(), None);
    assert_eq!(stages.average_moving_speed(), None);
    assert_eq!(stages.average_overall_speed(), None);
}

/// The stages of the ride from its second point on, so that the first of
/// them has a start time.
fn later_stages(gpx: &EnrichedGpx) -> StageList {
    let mut list = StageList::new();
    let mut stage_type = StageType::Moving;
    let mut start = 1;
    while let Some(stage) = get_next_stage(stage_type, start, gpx, &params(), &along) {
        start = stage.end.index + 1;
        list.push(stage);
        stage_type = stage_type.toggle();
    }
    list
}

#[test]
fn list_of_timed_stages_has_times_shares_and_speeds() {
    let gpx = ride();
    let stages = later_stages(&gpx);
    assert_eq!(stages.len(), 3);
    assert!(!stages.is_empty());
    assert_eq!(stages.start_time(), Some(0));
    assert_eq!(stages.end_time(), Some(11_000));
    assert_eq!(stages.duration(), Some(11_000));
    assert_eq!(stages.total_control_time(), Some(6_000));
    assert_eq!(stages.total_moving_time(), Some(5_000));
    assert_eq!(stages.moving_percent(), Some(454));
    assert_eq!(stages.controlling_percent(), Some(546));
    let metres = (16_668 - 5_556) + 11_000 + 6_776;
    assert_eq!(stages.distance_metres(), metres);
    assert_eq!(stages.average_moving_speed(), Some(metres * 3600 / 5_000));
    assert_eq!(stages.average_overall_speed(), Some(metres * 3600 / 11_000));
    assert_eq!(stages.total_ascent_metres(), Some(5_000 + 0 + 4_000));
    assert_eq!(stages.total_descent_metres(), Some(2_000 + 1_000 + 0));
}

#[test]
fn list_extremes_are_extremes_of_stages() {
    let gpx = ride();
    let stages = later_stages(&gpx);
    assert_eq!(stages.min_elevation(), Some(&gpx.points[10]));
    assert_eq!(stages.max_elevation(), Some(&gpx.points[3]));
    assert_eq!(stages.max_speed(), Some(&gpx.points[9]));
    assert_eq!(stages.max_heart_rate(), Some(&gpx.points[11]));
    assert_eq!(stages.min_temperature(), Some(&gpx.points[10]));
    assert_eq!(stages.max_temperature(), Some(&gpx.points[7]));
    let none = StageList::default();
    assert_eq!(none.max_heart_rate(), None);
    assert_eq!(none.min_temperature(), None);
    assert_eq!(none.max_temperature(), None);
    assert_eq!(none.total_control_time(), Some(0));
    assert_eq!(none.distance_metres(), 0);
}

#[test]
fn equal_extremes_go_to_the_first_or_the_last_stage() {
    let point = |index: usize, ele: i64, hr: u8, temp: i64| {
        let mut p = EnrichedTrackPoint::new(index, 0, 0);
        p.ele = Some(ele);
        p.heart_rate = Some(hr);
        p.air_temp = Some(temp);
        p.speed_kmh = Some(10_000);
        p
    };
    let stage = |p: EnrichedTrackPoint| Stage {
        stage_type: StageType::Moving,
        track_start_point: p,
        start: p,
        end: p,
        min_elevation: Some(p),
        max_elevation: Some(p),
        max_speed: Some(p),
        avg_heart_rate: None,
        max_heart_rate: Some(p),
        avg_air_temp: None,
        min_air_temp: Some(p),
        max_air_temp: Some(p),
    };
    let mut list = StageList::new();
    list.push(stage(point(0, 5, 100, 20)));
    list.push(stage(point(1, 5, 100, 20)));
    list.push(stage(point(2, 5, 100, 20)));
    assert_eq!(list.min_elevation().unwrap().index, 0);
    assert_eq!(list.max_elevation().unwrap().index, 0);
    assert_eq!(list.max_speed().unwrap().index, 0);
    assert_eq!(list.min_temperature().unwrap().index, 0);
    assert_eq!(list.max_heart_rate().unwrap().index, 2);
    assert_eq!(list.max_temperature().unwrap().index, 2);
}

#[test]
fn highlighted_points_come_in_order() {
    let (_, stages) = stages();
    let control = stages.get(1);
    assert_eq!(control.highlighted_trackpoints(), vec![0, 4, 4, 4, 7, 9, 9, 9]);
    let moving = stages.get(0);
    assert_eq!(moving.highlighted_trackpoints(), vec![0, 0, 2, 3, 3, 3, 3]);
    let all = stages.highlighted_trackpoints();
    let mut found: Vec<_> = all.into_iter().collect();
    found.sort();
    assert_eq!(found, vec![0, 2, 3, 4, 7, 9, 10, 11]);
}

#[test]
fn stage_is_described_by_the_names_of_its_ends() {
    let (_, stages) = stages();
    let names = |p: Position| match p.lon {
        0 => Some("Matlock".to_string()),
        16_668 => Some("Bakewell".to_string()),
        40_000 => Some("Buxton".to_string()),
        27_668 => Some("Ashford".to_string()),
        _ => None,
    };
    assert_eq!(stages.get(0).reverse_geocode(&names), Some("Matlock to Bakewell".to_string()));
    assert_eq!(stages.get(1).reverse_geocode(&names), Some("Bakewell".to_string()));
    // The last stage starts at a place without a name.
    assert_eq!(stages.get(2).reverse_geocode(&names), None);
    let nowhere = |_: Position| None;
    assert_eq!(stages.get(1).reverse_geocode(&nowhere), None);
}

#[test]
fn search_for_the_end_of_a_stage_goes_by_speed_or_by_the_crow() {
    let gpx = ride();
    assert_eq!(find_stop_index(&gpx, 0, 11, &params()), 3);
    assert_eq!(find_stop_index(&gpx, 10, 11, &params()), 11);
    assert_eq!(find_resume_index(&gpx, 4, 11, 10_000, &along), 9);
    assert_eq!(find_resume_index(&gpx, 4, 11, 100_000, &along), 11);
    assert_eq!(find_resume_index(&gpx, 4, 11, 0, &along), 9);
    assert!(get_next_stage(StageType::Moving, 11, &gpx, &params(), &along).is_none());
    assert!(get_next_stage(StageType::Control, 12, &gpx, &params(), &along).is_none());
}

#[test]
fn wandering_at_a_control_is_not_moving_on() {
    // At the halt the fixes wander to and fro: the path adds up, the
    // distance from where the halt began does not.
    let gpx = track(&[
        (0, 0, None, None, None),
        (20_000, 2_000, None, None, None),
        (40_000, 4_000, None, None, None),
        (40_000, 64_000, None, None, None),
        (44_000, 124_000, None, None, None),
        (40_000, 184_000, None, None, None),
        (44_000, 244_000, None, None, None),
        (40_000, 304_000, None, None, None),
        (60_000, 306_000, None, None, None),
        (80_000, 308_000, None, None, None),
        (100_000, 310_000, None, None, None),
    ]);
    let stages = detect_stages(&gpx, params(), &along);
    let found: Vec<_> = (0..stages.len())
        .map(|i| (stages.get(i).stage_type, stages.get(i).start.index, stages.get(i).end.index))
        .collect();
    // Over its first three minutes the track is slower than walking pace, so
    // it begins with a control, which the second point is already clear of.
    // The halt proper is confirmed by the path that has added up by point 6,
    // and lasts until point 8 is clear of where it began.
    assert_eq!(
        found,
        vec![
            (StageType::Control, 0, 1),
            (StageType::Moving, 2, 2),
            (StageType::Control, 3, 8),
            (StageType::Moving, 9, 10),
        ]
    );
}

#[test]
fn first_stage_is_told_by_the_average_speed() {
    let slow = track(&[
        (0, 0, None, None, None),
        (100_000, 100_000, None, None, None),
        (200_000, 200_000, None, None, None),
        (300_000, 300_000, None, None, None),
    ]);
    // A metre a second is 3.6 km/h.
    assert_eq!(get_starting_stage_type(&slow), StageType::Control);
    let brisk = track(&[
        (0, 0, None, None, None),
        (150_000, 100_000, None, None, None),
        (300_000, 200_000, None, None, None),
    ]);
    assert_eq!(get_starting_stage_type(&brisk), StageType::Moving);
    let mut a = EnrichedTrackPoint::new(0, 0, 0);
    let mut b = EnrichedTrackPoint::new(1, 0, 0);
    a.time = Some(0);
    b.time = Some(3_600_000);
    b.running_metres = 4_999_999;
    assert_eq!(classify_stage(&a, &b), StageType::Control);
    b.running_metres = 5_000_000;
    assert_eq!(classify_stage(&a, &b), StageType::Moving);
    assert_eq!(classify_stage(&a, &a), StageType::Moving);
    assert_eq!(classify_stage(&b, &a), StageType::Control);
    b.time = None;
    assert_eq!(classify_stage(&a, &b), StageType::Moving);
}

fn waypoint(lat: i64, lon: i64, at: i64) -> Waypoint {
    let mut wp = with_lat_lon(lat, lon).unwrap();
    wp.time = Some(at);
    wp.ele = Some(100_000);
    wp
}

fn file(name: &str, tracks: Vec<Vec<Vec<Waypoint>>>) -> Gpx {
    let mut gpx = Gpx::default();
    gpx.creator = name.to_string();
    for (i, segments) in tracks.into_iter().enumerate() {
        let mut track = Track::default();
        track.name = Some(format!("{name} track {i}"));
        for points in segments {
            track.segments.push(TrackSegment { points, extensions: None });
        }
        gpx.tracks.push(track);
    }
    gpx
}

#[test]
fn tracks_and_segments_merge_into_one() {
    let gpx = file(
        "a",
        vec![
            vec![vec![waypoint(1, 1, 1), waypoint(2, 2, 2)], vec![], vec![waypoint(3, 3, 3)]],
            vec![],
            vec![vec![waypoint(4, 4, 4)]],
        ],
    );
    assert!(!gpx.is_single_track());
    assert_eq!(gpx.num_points(), 4);
    let merged = gpx.into_single_track();
    assert!(merged.is_single_track());
    assert_eq!(merged.num_points(), 4);
    assert_eq!(merged.creator, "a");
    assert_eq!(merged.tracks[0].name, Some("a track 0".to_string()));
    let lats: Vec<_> = merged.tracks[0].segments[0].points.iter().map(|p| p.lat).collect();
    assert_eq!(lats, vec![1, 2, 3, 4]);
    let empty = Gpx::default().into_single_track();
    assert!(empty.is_single_track());
    assert_eq!(empty.num_points(), 0);
}

#[test]
fn files_join_in_their_order() {
    let a = file("a", vec![vec![vec![waypoint(1, 1, 1)], vec![waypoint(2, 2, 2)]]]);
    let b = file("b", vec![]);
    let c = file("c", vec![vec![vec![waypoint(3, 3, 3)]], vec![vec![waypoint(4, 4, 4)]]]);
    let joined = join_input_files(vec![a, b, c]);
    assert!(joined.is_single_track());
    assert_eq!(joined.creator, "a");
    assert_eq!(joined.tracks[0].name, Some("a track 0".to_string()));
    let lats: Vec<_> = joined.tracks[0].segments[0].points.iter().map(|p| p.lat).collect();
    assert_eq!(lats, vec![1, 2, 3, 4]);
    let alone = join_input_files(vec![file("z", vec![vec![vec![waypoint(9, 9, 9)]]])]);
    assert_eq!(alone.num_points(), 1);
}

#[test]
fn model_becomes_an_enriched_track() {
    let mut first = waypoint(530_000_000, -10_000_000, 0);
    first.garmin_extensions = Some(GarminTrackpointExtensions {
        air_temp: Some(20_000),
        water_temp: None,
        depth: None,
        heart_rate: Some(99),
        cadence: Some(80),
    });
    let mut gpx = file(
        "ride",
        vec![vec![vec![first, waypoint(530_001_000, -10_000_000, 10_000)]]],
    );
    gpx.filename = Some("ride.gpx".to_string());
    let enriched = to_enriched_gpx(&gpx, &geodesic).unwrap();
    assert_eq!(enriched.filename, Some("ride.gpx".to_string()));
    assert_eq!(enriched.last_valid_idx(), 1);
    let first_point = enriched.points[0];
    assert_eq!(first_point.as_position(), Position { lat: 530_000_000, lon: -10_000_000 });
    assert_eq!(first_point.heart_rate, Some(99));
    assert_eq!(first_point.air_temp, Some(20_000));
    assert_eq!(first_point.cadence, Some(80));
    assert_eq!(first_point.ele, Some(100_000));
    let second_point = enriched.points[1];
    assert_eq!(second_point.index, 1);
    // A ten-thousandth of a degree of latitude is a little over eleven
    // metres.
    let metres = second_point.delta_metres.unwrap();
    assert!(11_100 < metres && metres < 11_150, "{metres}");
    assert_eq!(second_point.running_metres, metres);
    assert_eq!(second_point.speed_kmh, Some(metres * 3600 / 10_000));
    assert_eq!(second_point.heart_rate, None);

    let two = file("two", vec![vec![vec![waypoint(0, 0, 0)]], vec![vec![waypoint(1, 1, 1)]]]);
    assert!(matches!(to_enriched_gpx(&two, &geodesic), Err(GapixError::MultipleTracksFound)));
    let mut far = file("far", vec![vec![vec![waypoint(0, 0, 0), waypoint(1, 1, 1)]]]);
    far.tracks[0].segments[0].points[1].lat = 900_000_001;
    assert!(matches!(
        to_enriched_gpx(&far, &geodesic),
        Err(GapixError::InvalidLatitude(900_000_001))
    ));
    far.tracks[0].segments[0].points[1].lat = 0;
    far.tracks[0].segments[0].points[0].time = Some(i64::MAX);
    assert!(matches!(
        to_enriched_gpx(&far, &geodesic),
        Err(GapixError::NumericConversionError(_))
    ));
}

#[test]
fn errors_say_what_went_wrong() {
    assert_eq!(
        GapixError::MandatoryAttributeNotFound("lat".to_string()).message(),
        "Mandatory attribute lat was not found on the element"
    );
    assert_eq!(
        GapixError::ParseFailure { from: "abc".to_string(), dest_type: "decimal".to_string() }
            .message(),
        "Could not parse abc into type decimal"
    );
    assert_eq!(
        GapixError::UnexpectedAttributes { element: "trk".to_string(), attributes: "a,b".to_string() }
            .message(),
        "Element trk has unexpected extra attributes a,b"
    );
    assert_eq!(
        GapixError::InvalidLatitude(12_340_000_000).message(),
        "Invalid latitude of 1234. Valid range is -90.0..=90.0"
    );
    assert_eq!(
        GapixError::InvalidLongitude(-11_114_500_000).message(),
        "Invalid longitude of -1111.45. Valid range is -180.0..=180.0"
    );
    assert_eq!(
        GapixError::InvalidDegrees(360_100).message(),
        "Invalid degrees of 360.1. Valid range is 0.0..=360"
    );
    assert_eq!(
        GapixError::InvalidDGPSStationId(-1).message(),
        "Invalid DGPS station Id of -1. Valid range is 0..=1023"
    );
    assert_eq!(
        GapixError::MissingText(42, "End".to_string()).message(),
        "Did not find an Event::Text element, buffer position = 42, event=End"
    );
    assert_eq!(GapixError::UnexpectedEof.message(), "Unexpected EOF. Check file for corruption");
    assert_eq!(
        GapixError::MultipleTracksFound.message(),
        "Multiple tracks were found when the operation requires a single track"
    );
    assert_eq!(
        GapixError::InvalidFixType("4d".to_string()).message(),
        "4d is not a valid fix type. Valid values are 'none', '2d', '3d', 'dgps', 'pps'"
    );
    assert_eq!(GapixError::XmlError("broken".to_string()).message(), "broken");
}
