//! The enrichment pass: one sweep over a track that derives, for every point
//! after the first, the distance, time, speed and climb since the previous
//! point and the running totals since the start.

use vstd::prelude::*;
use crate::error::{Failure, GapixError};
use crate::merge::single_track;
use crate::model::{waypoint_views, Gpx, Waypoint, WaypointView};
use crate::point::{
    checked_difference, difference, latitude_in_range, longitude_in_range, magnitude_in_range,
    EnrichedTrackPoint, Position, MAX_LATITUDE, MAX_LONGITUDE, MAX_MAGNITUDE,
};

verus! {

/// A track reduced to one run of points, ready for enrichment and staging.
#[derive(Debug)]
pub struct EnrichedGpx {
    pub filename: Option<String>,
    pub points: Vec<EnrichedTrackPoint>,
}

/// `f` can be asked for the distance between any two positions and answers
/// each question in one way only.
pub open spec fn measures<F: Fn(Position, Position) -> u64>(f: &F) -> bool {
    &&& forall|a: Position, b: Position| call_requires(*f, (a, b))
    &&& forall|a: Position, b: Position, d1: u64, d2: u64|
        call_ensures(*f, (a, b), d1) && call_ensures(*f, (a, b), d2) ==> d1 == d2
}

/// The distance that `f` gives from `a` to `b`.
pub open spec fn distance_by<F: Fn(Position, Position) -> u64>(
    f: &F,
    a: Position,
    b: Position,
) -> u64 {
    choose|d: u64| call_ensures(*f, (a, b), d)
}

/// `a + b`, held at `u64::MAX` where the sum would pass it.
pub open spec fn saturating_sum(a: u64, b: u64) -> u64 {
    if a + b > u64::MAX {
        u64::MAX
    } else {
        (a + b) as u64
    }
}

/// Speed in km/h over `metres` covered in `seconds`: `metres / seconds * 3.6`,
/// rounded down and held at `u64::MAX`. There is no speed over no time.
pub open spec fn spec_speed_kmh(metres: u64, seconds: u64) -> Option<u64> {
    if seconds == 0 {
        None
    } else if metres * 3600 / (seconds as int) > u64::MAX {
        Some(u64::MAX)
    } else {
        Some((metres * 3600 / (seconds as int)) as u64)
    }
}

/// Speed in km/h over `metres` covered in `duration`; none unless the
/// duration is positive.
pub open spec fn spec_speed_kmh_from_duration(metres: u64, duration: i64) -> Option<u64> {
    if duration <= 0 {
        None
    } else {
        spec_speed_kmh(metres, duration as u64)
    }
}

/// Calculates speed in km/h from metres and seconds.
pub fn speed_kmh(metres: u64, seconds: u64) -> (speed: Option<u64>)
    ensures
        speed == spec_speed_kmh(metres, seconds),
{
    if seconds == 0 {
        return None;
    }
    let scaled: u128 = (metres as u128) * 3600;
    let quotient: u128 = scaled / (seconds as u128);
    if quotient > u64::MAX as u128 {
        Some(u64::MAX)
    } else {
        Some(quotient as u64)
    }
}

/// Calculates speed in km/h from metres and a duration.
pub fn speed_kmh_from_duration(metres: u64, duration: i64) -> (speed: Option<u64>)
    ensures
        speed == spec_speed_kmh_from_duration(metres, duration),
{
    if duration <= 0 {
        None
    } else {
        speed_kmh(metres, duration as u64)
    }
}

/// The speed recorded for a point `metres` on from its predecessor: none
/// where either instant is unknown, zero where the clock did not advance.
pub open spec fn leg_speed(metres: u64, delta_time: Option<i64>) -> Option<u64> {
    match delta_time {
        None => None,
        Some(dt) => if dt <= 0 {
            Some(0)
        } else {
            spec_speed_kmh(metres, dt as u64)
        },
    }
}

/// What a climb of `delta` adds to the running ascent.
pub open spec fn ascent_part(delta: Option<i64>) -> u64 {
    match delta {
        Some(d) => if d > 0 {
            d as u64
        } else {
            0
        },
        None => 0,
    }
}

/// What a climb of `delta` adds to the running descent.
pub open spec fn descent_part(delta: Option<i64>) -> u64 {
    match delta {
        Some(d) => if d < 0 {
            (-d) as u64
        } else {
            0
        },
        None => 0,
    }
}

/// The value of a running total that may not have been started yet.
pub open spec fn total_so_far(total: Option<u64>) -> u64 {
    match total {
        Some(t) => t,
        None => 0,
    }
}

/// The first point of an enriched track: it has no predecessor, so nothing
/// is derived for it.
pub open spec fn first_enriched(p: EnrichedTrackPoint) -> bool {
    &&& p.delta_metres is None
    &&& p.running_metres == 0
    &&& p.delta_time is None
    &&& p.running_delta_time is None
    &&& p.speed_kmh is None
    &&& p.ele_delta_metres is None
    &&& p.running_ascent_metres is None
    &&& p.running_descent_metres is None
}

/// How the derived fields of `cur` follow from the point before it and from
/// the first point of the track, given the distance `cur.delta_metres`.
pub open spec fn next_enriched(
    first: EnrichedTrackPoint,
    prev: EnrichedTrackPoint,
    cur: EnrichedTrackPoint,
) -> bool {
    &&& cur.delta_metres is Some
    &&& cur.running_metres == saturating_sum(prev.running_metres, cur.delta_metres->0)
    &&& cur.delta_time == checked_difference(cur.time, prev.time)
    &&& cur.running_delta_time == checked_difference(cur.time, first.time)
    &&& cur.speed_kmh == leg_speed(cur.delta_metres->0, cur.delta_time)
    &&& cur.ele_delta_metres == checked_difference(cur.ele, prev.ele)
    &&& cur.running_ascent_metres == Some(
        saturating_sum(
            total_so_far(prev.running_ascent_metres),
            ascent_part(cur.ele_delta_metres),
        ),
    )
    &&& cur.running_descent_metres == Some(
        saturating_sum(
            total_so_far(prev.running_descent_metres),
            descent_part(cur.ele_delta_metres),
        ),
    )
}

/// The fields of a point that enrichment reads and leaves as they are.
pub open spec fn same_fix(a: EnrichedTrackPoint, b: EnrichedTrackPoint) -> bool {
    &&& a.lat == b.lat
    &&& a.lon == b.lon
    &&& a.ele == b.ele
    &&& a.time == b.time
    &&& a.heart_rate == b.heart_rate
    &&& a.air_temp == b.air_temp
    &&& a.cadence == b.cadence
}

/// The points form an enriched track: each knows its place, holds a fix in
/// range, and carries the metrics that follow from its predecessors.
pub open spec fn enriched_points(points: Seq<EnrichedTrackPoint>) -> bool {
    &&& forall|i: int| 0 <= i < points.len() ==> (#[trigger] points[i]).index == i
    &&& forall|i: int| 0 <= i < points.len() ==> (#[trigger] points[i]).fix_valid()
    &&& points.len() > 0 ==> first_enriched(points[0])
    &&& forall|i: int, j: int|
        0 <= i && j == i + 1 && j < points.len() ==> next_enriched(
            points[0],
            #[trigger] points[i],
            #[trigger] points[j],
        )
}

impl EnrichedGpx {
    /// Every point holds a fix in range.
    pub open spec fn fixes_valid(&self) -> bool {
        forall|i: int| 0 <= i < self.points@.len() ==> (#[trigger] self.points@[i]).fix_valid()
    }

    /// The track has been enriched.
    pub open spec fn enriched(&self) -> bool {
        enriched_points(self.points@)
    }

    /// A track of the given points.
    pub fn new(filename: Option<String>, points: Vec<EnrichedTrackPoint>) -> (gpx: Self)
        ensures
            gpx.filename == filename,
            gpx.points == points,
    {
        EnrichedGpx { filename, points }
    }

    /// Index of the last point.
    pub fn last_valid_idx(&self) -> (idx: usize)
        requires
            self.points@.len() > 0,
        ensures
            idx == self.points@.len() - 1,
    {
        self.points.len() - 1
    }
}

/// The speed recorded for a point `metres` on from its predecessor.
fn speed_of_leg(metres: u64, delta_time: Option<i64>) -> (speed: Option<u64>)
    ensures
        speed == leg_speed(metres, delta_time),
{
    match delta_time {
        None => None,
        Some(dt) => if dt <= 0 {
            Some(0)
        } else {
            speed_kmh(metres, dt as u64)
        },
    }
}

/// The upward part of a climb.
fn climbed(delta: Option<i64>) -> (m: u64)
    ensures
        m == ascent_part(delta),
{
    match delta {
        Some(d) => if d > 0 {
            d as u64
        } else {
            0
        },
        None => 0,
    }
}

/// The downward part of a climb.
fn descended(delta: Option<i64>) -> (m: u64)
    ensures
        m == descent_part(delta),
{
    match delta {
        Some(d) => if d < 0 {
            (-(d + 1)) as u64 + 1
        } else {
            0
        },
        None => 0,
    }
}

/// A running total as a number.
fn so_far(total: Option<u64>) -> (t: u64)
    ensures
        t == total_so_far(total),
{
    match total {
        Some(t) => t,
        None => 0,
    }
}

/// Calculates the enriched metrics of every point: distances, times, speed
/// and climb, each since the previous point and since the start.
///
/// `distance` measures the ground between two positions. Where the clock
/// does not advance between two points the later one gets a speed of zero.
pub fn enrich_trackpoints<F: Fn(Position, Position) -> u64>(gpx: &mut EnrichedGpx, distance: &F)
    requires
        old(gpx).fixes_valid(),
        measures(distance),
    ensures
        final(gpx).enriched(),
        final(gpx).filename == old(gpx).filename,
        final(gpx).points@.len() == old(gpx).points@.len(),
        forall|i: int|
            0 <= i < old(gpx).points@.len() ==> same_fix(
                #[trigger] final(gpx).points@[i],
                old(gpx).points@[i],
            ),
        forall|i: int|
            1 <= i < old(gpx).points@.len() ==> (#[trigger] final(gpx).points@[i]).delta_metres
                == Some(
                distance_by(
                    distance,
                    old(gpx).points@[i - 1].position(),
                    old(gpx).points@[i].position(),
                ),
            ),
{
    let n: usize = gpx.points.len();
    if n == 0 {
        return ;
    }
    let origin: EnrichedTrackPoint = gpx.points[0];
    let first: EnrichedTrackPoint = EnrichedTrackPoint {
        index: 0,
        delta_metres: None,
        running_metres: 0,
        delta_time: None,
        running_delta_time: None,
        speed_kmh: None,
        ele_delta_metres: None,
        running_ascent_metres: None,
        running_descent_metres: None,
        ..origin
    };
    gpx.points.set(0, first);
    let mut prev: EnrichedTrackPoint = first;
    let mut i: usize = 1;
    while i < n
        invariant
            1 <= i <= n,
            n == gpx.points@.len(),
            n == old(gpx).points@.len(),
            gpx.filename == old(gpx).filename,
            measures(distance),
            old(gpx).fixes_valid(),
            first == gpx.points@[0],
            prev == gpx.points@[i - 1],
            enriched_points(gpx.points@.take(i as int)),
            forall|j: int| 0 <= j < n ==> same_fix(#[trigger] gpx.points@[j], old(gpx).points@[j]),
            forall|j: int|
                1 <= j < i ==> (#[trigger] gpx.points@[j]).delta_metres == Some(
                    distance_by(
                        distance,
                        old(gpx).points@[j - 1].position(),
                        old(gpx).points@[j].position(),
                    ),
                ),
        decreases n - i,
    {
        let raw: EnrichedTrackPoint = gpx.points[i];
        let metres: u64 = distance(prev.as_position(), raw.as_position());
        let delta_time: Option<i64> = difference(raw.time, prev.time);
        let ele_delta_metres: Option<i64> = difference(raw.ele, prev.ele);
        let cur: EnrichedTrackPoint = EnrichedTrackPoint {
            index: i,
            delta_metres: Some(metres),
            running_metres: prev.running_metres.saturating_add(metres),
            delta_time,
            running_delta_time: difference(raw.time, first.time),
            speed_kmh: speed_of_leg(metres, delta_time),
            ele_delta_metres,
            running_ascent_metres: Some(
                so_far(prev.running_ascent_metres).saturating_add(climbed(ele_delta_metres)),
            ),
            running_descent_metres: Some(
                so_far(prev.running_descent_metres).saturating_add(descended(ele_delta_metres)),
            ),
            ..raw
        };
        let ghost before = gpx.points@;
        gpx.points.set(i, cur);
        proof {
            let after = gpx.points@;
            assert(after.take(i as int) =~= before.take(i as int));
            assert forall|j: int| 0 <= j < i + 1 implies (#[trigger] after.take(i + 1)[j]).index
                == j by {
                if j < i {
                    assert(after.take(i + 1)[j] == before.take(i as int)[j]);
                }
            }
            assert forall|j: int| 0 <= j < i + 1 implies (#[trigger] after.take(
                i + 1,
            )[j]).fix_valid() by {
                if j < i {
                    assert(after.take(i + 1)[j] == before.take(i as int)[j]);
                } else {
                    assert(same_fix(before[j], old(gpx).points@[j]));
                    assert(old(gpx).points@[j].fix_valid());
                }
            }
            assert forall|k: int, j: int| 0 <= k && j == k + 1 && j < i + 1 implies next_enriched(
                after.take(i + 1)[0],
                #[trigger] after.take(i + 1)[k],
                #[trigger] after.take(i + 1)[j],
            ) by {
                if j < i {
                    assert(after.take(i + 1)[j] == before.take(i as int)[j]);
                    assert(after.take(i + 1)[k] == before.take(i as int)[k]);
                    assert(after.take(i + 1)[0] == before.take(i as int)[0]);
                }
            }
            assert(first_enriched(after.take(i + 1)[0]));
        }
        prev = cur;
        i += 1;
    }
    proof {
        assert(gpx.points@.take(n as int) =~= gpx.points@);
    }
}

/// Along an enriched track no running total ever falls: the distance, the
/// ascent and the descent at a later point are at least what they were at an
/// earlier one.
pub proof fn lemma_running_totals_never_fall(points: Seq<EnrichedTrackPoint>, i: int, j: int)
    requires
        enriched_points(points),
        0 <= i <= j < points.len(),
    ensures
        points[i].running_metres <= points[j].running_metres,
        total_so_far(points[i].running_ascent_metres) <= total_so_far(
            points[j].running_ascent_metres,
        ),
        total_so_far(points[i].running_descent_metres) <= total_so_far(
            points[j].running_descent_metres,
        ),
    decreases j - i,
{
    if i < j {
        lemma_running_totals_never_fall(points, i, j - 1);
        assert(next_enriched(points[0], points[j - 1], points[j]));
    }
}

/// A reading of a device, where the point has readings.
pub open spec fn device_air_temp(point: WaypointView) -> Option<i64> {
    match point.garmin_extensions {
        Some(g) => g.air_temp,
        None => None,
    }
}

/// What keeps a point of the model from being a point of an enriched track,
/// if anything: a position out of range, or an elevation, an instant or a
/// temperature further from zero than the enriched track holds.
pub open spec fn point_fault(point: WaypointView) -> Option<Failure> {
    if !latitude_in_range(point.lat) {
        Some(Failure::InvalidLatitude(point.lat))
    } else if !longitude_in_range(point.lon) {
        Some(Failure::InvalidLongitude(point.lon))
    } else if (point.ele matches Some(e) && !magnitude_in_range(e)) || (point.time matches Some(t)
        && !magnitude_in_range(t)) || (device_air_temp(point) matches Some(t)
        && !magnitude_in_range(t)) {
        Some(Failure::NumericConversionError("value out of range"@))
    } else {
        None
    }
}

/// The point of the model as the point at `index` of a track, with nothing
/// derived for it yet.
pub open spec fn raw_point(point: WaypointView, index: usize) -> EnrichedTrackPoint {
    EnrichedTrackPoint {
        index,
        lat: point.lat,
        lon: point.lon,
        ele: point.ele,
        time: point.time,
        heart_rate: match point.garmin_extensions {
            Some(g) => g.heart_rate,
            None => None,
        },
        air_temp: device_air_temp(point),
        cadence: match point.garmin_extensions {
            Some(g) => g.cadence,
            None => None,
        },
        delta_metres: None,
        running_metres: 0,
        delta_time: None,
        running_delta_time: None,
        speed_kmh: None,
        ele_delta_metres: None,
        running_ascent_metres: None,
        running_descent_metres: None,
    }
}

/// Index of the first of the first `n` points that cannot be a point of an
/// enriched track.
pub open spec fn first_faulty(points: Seq<WaypointView>, from: int) -> Option<int>
    decreases points.len() - from,
{
    if from < 0 || from >= points.len() {
        None
    } else if point_fault(points[from]) is Some {
        Some(from)
    } else {
        first_faulty(points, from + 1)
    }
}

/// Takes a point of the model as a point of a track.
fn take_point(point: &Waypoint, index: usize) -> (taken: Result<EnrichedTrackPoint, GapixError>)
    ensures
        taken matches Ok(p) ==> point_fault(point@) is None && p == raw_point(point@, index)
            && p.fix_valid(),
        taken matches Err(e) ==> point_fault(point@) == Some(e@),
{
    if point.lat < -MAX_LATITUDE || point.lat > MAX_LATITUDE {
        return Err(GapixError::InvalidLatitude(point.lat));
    }
    if point.lon < -MAX_LONGITUDE || point.lon > MAX_LONGITUDE {
        return Err(GapixError::InvalidLongitude(point.lon));
    }
    let mut p: EnrichedTrackPoint = EnrichedTrackPoint::new(index, point.lat, point.lon);
    p.ele = point.ele;
    p.time = point.time;
    match point.garmin_extensions {
        Some(g) => {
            p.heart_rate = g.heart_rate;
            p.air_temp = g.air_temp;
            p.cadence = g.cadence;
        },
        None => {},
    }
    if fits(p.ele) && fits(p.time) && fits(p.air_temp) {
        Ok(p)
    } else {
        Err(GapixError::NumericConversionError("value out of range".to_owned()))
    }
}

/// Is the value, where there is one, of a magnitude that the enriched track
/// holds?
fn fits(value: Option<i64>) -> (b: bool)
    ensures
        b == (value matches Some(v) ==> magnitude_in_range(v)),
{
    match value {
        Some(v) => -MAX_MAGNITUDE <= v && v <= MAX_MAGNITUDE,
        None => true,
    }
}

/// Makes the enriched track of a file that has been reduced to a single
/// track: its points with the metrics derived for them.
///
/// A file of more than one track, or of one with more than one segment, is
/// refused, as is one with a point that an enriched track cannot hold.
pub fn to_enriched_gpx<F: Fn(Position, Position) -> u64>(gpx: &Gpx, distance: &F) -> (made: Result<
    EnrichedGpx,
    GapixError,
>)
    requires
        measures(distance),
    ensures
        !single_track(gpx@) ==> (made matches Err(e) && e@ == Failure::MultipleTracksFound),
        single_track(gpx@) ==> (match first_faulty(gpx@.tracks[0].segments[0].points, 0) {
            Some(i) => made matches Err(e) && Some(e@) == point_fault(
                gpx@.tracks[0].segments[0].points[i],
            ),
            None => made matches Ok(e) && e.enriched() && e.points@.len()
                == gpx@.tracks[0].segments[0].points.len() && (forall|i: int|
                0 <= i < e.points@.len() ==> same_fix(
                    #[trigger] e.points@[i],
                    raw_point(gpx@.tracks[0].segments[0].points[i], i as usize),
                )) && (forall|i: int|
                1 <= i < e.points@.len() ==> (#[trigger] e.points@[i]).delta_metres == Some(
                    distance_by(
                        distance,
                        raw_point(gpx@.tracks[0].segments[0].points[i - 1], 0).position(),
                        raw_point(gpx@.tracks[0].segments[0].points[i], 0).position(),
                    ),
                )),
        }),
{
    if !gpx.is_single_track() {
        return Err(GapixError::MultipleTracksFound);
    }
    let source: &Vec<Waypoint> = &gpx.tracks[0].segments[0].points;
    let ghost wanted = gpx@.tracks[0].segments[0].points;
    assert(wanted == waypoint_views(source@));
    let n: usize = source.len();
    let mut points: Vec<EnrichedTrackPoint> = Vec::new();
    let mut i: usize = 0;
    while i < n
        invariant
            n == source@.len(),
            wanted == waypoint_views(source@),
            wanted == gpx@.tracks[0].segments[0].points,
            single_track(gpx@),
            i <= n,
            points@.len() == i,
            first_faulty(wanted, 0) == first_faulty(wanted, i as int),
            forall|j: int| 0 <= j < i ==> #[trigger] points@[j] == raw_point(wanted[j], j as usize),
            forall|j: int| 0 <= j < i ==> (#[trigger] points@[j]).fix_valid(),
        decreases n - i,
    {
        points.push(take_point(&source[i], i)?);
        i += 1;
    }
    let filename: Option<String> = match &gpx.filename {
        Some(f) => Some(f.clone()),
        None => None,
    };
    let mut enriched: EnrichedGpx = EnrichedGpx::new(filename, points);
    let ghost raw = enriched.points@;
    enrich_trackpoints(&mut enriched, distance);
    proof {
        assert forall|k: int| 0 <= k < enriched.points@.len() implies same_fix(
            #[trigger] enriched.points@[k],
            raw_point(wanted[k], k as usize),
        ) by {
            assert(same_fix(enriched.points@[k], raw[k]));
        }
    }
    Ok(enriched)
}

} // verus!
