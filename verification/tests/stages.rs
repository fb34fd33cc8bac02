use gapix_core::detect::{detect_stages, find_stop_index, try_detect_stages};
use gapix_core::enrich::{enrich_trackpoints, speed_kmh, speed_kmh_from_duration, EnrichedGpx};
use gapix_core::point::{EnrichedTrackPoint, Position};
use gapix_core::stage::{StageDetectionParameters, StageList, StageType};

/// Distance along the equator of a world in which one unit of longitude is
/// one millimetre.
fn along(a: Position, b: Position) -> u64 {
    (a.lon - b.lon).unsigned_abs() + (a.lat - b.lat).unsigned_abs()
}

/// A track of points at the given millimetres east and milliseconds.
fn track(fixes: &[(i64, i64)]) -> EnrichedGpx {
    let mut points = Vec::new();
    for (i, (east, at)) in fixes.iter().enumerate() {
        let mut p = EnrichedTrackPoint::new(i, 0, *east);
        p.time = Some(*at);
        points.push(p);
    }
    let mut gpx = EnrichedGpx::new(None, points);
    enrich_trackpoints(&mut gpx, &along);
    gpx
}

fn params() -> StageDetectionParameters {
    StageDetectionParameters {
        stopped_speed_kmh: 2_000,
        min_metres_to_resume: 10_000,
        min_duration_seconds: 5_000,
    }
}

fn bounds(stages: &StageList) -> Vec<(StageType, usize, usize)> {
    (0..stages.len())
        .map(|i| {
            let s = stages.get(i);
            (s.stage_type, s.start.index, s.end.index)
        })
        .collect()
}

/// Twelve points a second apart: four at 20 km/h, five at rest, one that has
/// moved eleven metres on, and two more on the move.
fn ride_with_a_halt() -> EnrichedGpx {
    track(&[
        (0, 0),
        (5_556, 1_000),
        (11_112, 2_000),
        (16_668, 3_000),
        (16_668, 4_000),
        (16_668, 5_000),
        (16_668, 6_000),
        (16_668, 7_000),
        (16_668, 8_000),
        (27_668, 9_000),
        (33_224, 10_000),
        (38_780, 11_000),
    ])
}

#[test]
fn speed_is_metres_per_second_times_3_6() {
    assert_eq!(speed_kmh(5_556, 1_000), Some(20_001));
    assert_eq!(speed_kmh(1_000, 1_000), Some(3_600));
    assert_eq!(speed_kmh(0, 1_000), Some(0));
    assert_eq!(speed_kmh(1_000, 0), None);
    assert_eq!(speed_kmh(u64::MAX, 1), Some(u64::MAX));
    assert_eq!(speed_kmh_from_duration(10_000, 2_000), Some(18_000));
    assert_eq!(speed_kmh_from_duration(10_000, 0), None);
    assert_eq!(speed_kmh_from_duration(10_000, -5), None);
}

#[test]
fn enrichment_derives_deltas_and_running_totals() {
    let mut gpx = track(&[(0, 0), (5_000, 1_000), (5_000, 3_000), (9_000, 3_000)]);
    gpx.points[0].ele = Some(100_000);
    gpx.points[1].ele = Some(103_000);
    gpx.points[2].ele = None;
    gpx.points[3].ele = Some(101_000);
    enrich_trackpoints(&mut gpx, &along);

    let first = gpx.points[0];
    assert_eq!(first.index, 0);
    assert_eq!(first.delta_metres, None);
    assert_eq!(first.running_metres, 0);
    assert_eq!(first.delta_time, None);
    assert_eq!(first.speed_kmh, None);
    assert_eq!(first.ele_delta_metres, None);
    assert_eq!(first.running_ascent_metres, None);
    assert_eq!(first.running_descent_metres, None);
    assert_eq!(first.start_time(), None);

    let second = gpx.points[1];
    assert_eq!(second.index, 1);
    assert_eq!(second.delta_metres, Some(5_000));
    assert_eq!(second.running_metres, 5_000);
    assert_eq!(second.delta_time, Some(1_000));
    assert_eq!(second.running_delta_time, Some(1_000));
    assert_eq!(second.speed_kmh, Some(18_000));
    assert_eq!(second.ele_delta_metres, Some(3_000));
    assert_eq!(second.running_ascent_metres, Some(3_000));
    assert_eq!(second.running_descent_metres, Some(0));
    assert_eq!(second.start_time(), Some(0));

    let third = gpx.points[2];
    assert_eq!(third.delta_metres, Some(0));
    assert_eq!(third.running_metres, 5_000);
    assert_eq!(third.delta_time, Some(2_000));
    assert_eq!(third.speed_kmh, Some(0));
    assert_eq!(third.ele_delta_metres, None);
    assert_eq!(third.running_ascent_metres, Some(3_000));
    assert_eq!(third.running_descent_metres, Some(0));

    // The clock did not advance into the last point: its speed is zero.
    let fourth = gpx.points[3];
    assert_eq!(fourth.delta_metres, Some(4_000));
    assert_eq!(fourth.running_metres, 9_000);
    assert_eq!(fourth.delta_time, Some(0));
    assert_eq!(fourth.running_delta_time, Some(3_000));
    assert_eq!(fourth.speed_kmh, Some(0));
    assert_eq!(fourth.ele_delta_metres, None);
    assert_eq!(fourth.running_ascent_metres, Some(3_000));
}

#[test]
fn descents_accumulate_apart_from_ascents() {
    let mut gpx = track(&[(0, 0), (1_000, 1_000), (2_000, 2_000), (3_000, 3_000)]);
    for (i, ele) in [50_000, 40_000, 45_000, 30_000].iter().enumerate() {
        gpx.points[i].ele = Some(*ele);
    }
    enrich_trackpoints(&mut gpx, &along);
    let ascents: Vec<_> = gpx.points.iter().map(|p| p.running_ascent_metres).collect();
    let descents: Vec<_> = gpx.points.iter().map(|p| p.running_descent_metres).collect();
    assert_eq!(ascents, vec![None, Some(0), Some(5_000), Some(5_000)]);
    assert_eq!(descents, vec![None, Some(10_000), Some(10_000), Some(25_000)]);
}

#[test]
fn running_totals_never_fall() {
    let gpx = ride_with_a_halt();
    for pair in gpx.points.windows(2) {
        assert!(pair[1].running_metres >= pair[0].running_metres);
        assert!(
            pair[1].running_ascent_metres.unwrap_or(0) >= pair[0].running_ascent_metres.unwrap_or(0)
        );
        assert!(
            pair[1].running_descent_metres.unwrap_or(0)
                >= pair[0].running_descent_metres.unwrap_or(0)
        );
    }
}

#[test]
fn running_distance_saturates() {
    let far = |_: Position, _: Position| u64::MAX - 1;
    let mut gpx = track(&[(0, 0), (1, 1_000), (2, 2_000)]);
    enrich_trackpoints(&mut gpx, &far);
    assert_eq!(gpx.points[1].running_metres, u64::MAX - 1);
    assert_eq!(gpx.points[2].running_metres, u64::MAX);
}

#[test]
fn halt_splits_ride_into_three_stages() {
    let gpx = ride_with_a_halt();
    let stages = detect_stages(&gpx, params(), &along);
    assert_eq!(
        bounds(&stages),
        vec![
            (StageType::Moving, 0, 3),
            (StageType::Control, 4, 9),
            (StageType::Moving, 10, 11),
        ]
    );
}

#[test]
fn stages_cover_the_track_and_alternate() {
    let gpx = ride_with_a_halt();
    let stages = detect_stages(&gpx, params(), &along);
    let found = bounds(&stages);
    assert_eq!(found[0].1, 0);
    assert_eq!(found[found.len() - 1].2, gpx.points.len() - 1);
    for pair in found.windows(2) {
        assert_eq!(pair[0].2 + 1, pair[1].1);
        assert_ne!(pair[0].0, pair[1].0);
    }
}

#[test]
fn short_halt_is_absorbed_into_the_moving_stage() {
    // The halt lasts four seconds from the point before it to the point
    // that has moved on: less than the five that make a control.
    let gpx = track(&[
        (0, 0),
        (5_556, 1_000),
        (11_112, 2_000),
        (16_668, 3_000),
        (16_668, 4_000),
        (16_668, 5_000),
        (16_668, 6_000),
        (27_668, 7_000),
        (33_224, 8_000),
        (38_780, 9_000),
        (44_336, 10_000),
    ]);
    let stages = detect_stages(&gpx, params(), &along);
    assert_eq!(bounds(&stages), vec![(StageType::Moving, 0, 10)]);
}

#[test]
fn halt_of_exactly_the_minimum_duration_counts() {
    let gpx = track(&[
        (0, 0),
        (5_556, 1_000),
        (11_112, 2_000),
        (11_112, 3_000),
        (11_112, 6_000),
        (22_113, 7_000),
        (27_668, 8_000),
        (33_224, 9_000),
    ]);
    // From point 2 (the candidate) to point 5 (moved on) is five seconds.
    let stages = detect_stages(&gpx, params(), &along);
    assert_eq!(
        bounds(&stages),
        vec![
            (StageType::Moving, 0, 2),
            (StageType::Control, 3, 5),
            (StageType::Moving, 6, 7),
        ]
    );
}

#[test]
fn moving_on_by_exactly_the_resume_distance_is_not_enough() {
    // Point 5 lies exactly ten metres beyond the candidate, point 6 more.
    let gpx = track(&[
        (0, 0),
        (5_556, 1_000),
        (11_112, 2_000),
        (11_112, 3_000),
        (11_112, 8_000),
        (21_112, 9_000),
        (26_668, 10_000),
        (32_224, 11_000),
        (37_780, 12_000),
    ]);
    let stages = detect_stages(&gpx, params(), &along);
    assert_eq!(
        bounds(&stages),
        vec![
            (StageType::Moving, 0, 2),
            (StageType::Control, 3, 6),
            (StageType::Moving, 7, 8),
        ]
    );
}

#[test]
fn track_that_starts_at_rest_begins_with_a_control() {
    // A slow start: a metre a minute for six minutes, then away.
    let gpx = track(&[
        (0, 0),
        (1_000, 60_000),
        (2_000, 120_000),
        (3_000, 180_000),
        (4_000, 240_000),
        (60_000, 250_000),
        (120_000, 260_000),
        (180_000, 270_000),
    ]);
    let stages = detect_stages(&gpx, params(), &along);
    assert_eq!(
        bounds(&stages),
        vec![(StageType::Control, 0, 5), (StageType::Moving, 6, 7)]
    );
}

#[test]
fn one_point_yields_no_stages() {
    let gpx = track(&[(0, 0)]);
    assert!(detect_stages(&gpx, params(), &along).is_empty());
    let gpx = track(&[]);
    assert!(detect_stages(&gpx, params(), &along).is_empty());
}

#[test]
fn point_without_time_yields_no_stages() {
    let mut gpx = ride_with_a_halt();
    gpx.points[5].time = None;
    enrich_trackpoints(&mut gpx, &along);
    let stages = detect_stages(&gpx, params(), &along);
    assert!(stages.is_empty());
    assert_eq!(stages.len(), 0);
}

#[test]
fn control_that_ends_on_the_last_point_but_one_leaves_the_last_out() {
    let gpx = track(&[(0, 0), (20_000, 100_000), (21_000, 200_000)]);
    assert!(try_detect_stages(&gpx, params(), &along).is_none());
    let whole = ride_with_a_halt();
    let stages = try_detect_stages(&whole, params(), &along).unwrap();
    assert_eq!(stages.len(), 3);
}

#[test]
fn stage_type_toggles() {
    assert_eq!(StageType::Moving.toggle(), StageType::Control);
    assert_eq!(StageType::Control.toggle(), StageType::Moving);
    assert_eq!(StageType::Moving.as_str(), "Moving");
    assert_eq!(StageType::Control.as_str(), "Control");
}

/// Ten points a second apart: four on the move, five at rest, and the last
/// eleven metres further on.
fn ride_that_ends_as_it_moves_on() -> EnrichedGpx {
    track(&[
        (0, 0),
        (5_500, 1_000),
        (11_000, 2_000),
        (16_500, 3_000),
        (16_500, 4_000),
        (16_500, 5_000),
        (16_500, 6_000),
        (16_500, 7_000),
        (16_500, 8_000),
        (27_500, 9_000),
    ])
}

#[test]
fn halt_confirmed_on_the_last_point_ends_the_moving_stage() {
    let gpx = ride_that_ends_as_it_moves_on();
    assert_eq!(find_stop_index(&gpx, 0, 9, &params()), 3);
    let stages = try_detect_stages(&gpx, params(), &along).unwrap();
    assert_eq!(bounds(&stages), vec![(StageType::Moving, 0, 3), (StageType::Control, 4, 9)]);
}

#[test]
fn halt_too_short_on_the_last_point_is_absorbed() {
    let mut points = vec![(0, 0), (5_500, 1_000), (11_000, 2_000), (16_500, 3_000)];
    points.extend([(16_500, 4_000), (16_500, 5_000), (27_500, 6_000)]);
    let gpx = track(&points);
    assert_eq!(find_stop_index(&gpx, 0, 6, &params()), 6);
}
