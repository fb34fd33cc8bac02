//! Stage detection: splitting an enriched track into stages that are in turn
//! moving and stationary.
//!
//! A moving stage ends on the point before the speed drops to the stopped
//! speed, provided the halt that follows lasts long enough before the track
//! has moved on; shorter halts are noise and stay inside the moving stage.
//! A stationary stage ends on the first point that lies far enough, as the
//! crow flies, from where it began.

use vstd::prelude::*;
use crate::enrich::{
    distance_by, enriched_points, lemma_running_totals_never_fall, measures, EnrichedGpx,
};
use crate::extrema::{
    all_read, find_air_temps, find_heart_rates, find_max_speed, find_min_and_max_elevation_points,
    lemma_first_greatest_is_greatest, lemma_first_least_is_least, max_air_temp_point,
    max_elevation_point, max_heart_rate_point, max_speed_point, mean_air_temp, mean_heart_rate,
    min_air_temp_point, min_elevation_point, reading, Reading,
};
use crate::point::{checked_difference, difference, EnrichedTrackPoint, Position};
use crate::stage::{
    as_good, extreme_of, extreme_point, extreme_stage, lemma_list_extreme_is_extreme, rank, Extreme,
    Stage, StageDetectionParameters, StageList, StageType,
};

verus! {

/// Below this average speed a track is taken to begin at a halt.
pub const WALKING_PACE_KMH: u64 = 5_000;

/// The stretch at the beginning of a track over which its first stage is
/// told apart.
pub const SETTLING_SECONDS: i64 = 180_000;

/// Every point has an instant.
pub open spec fn all_timed(points: Seq<EnrichedTrackPoint>) -> bool {
    forall|i: int| 0 <= i < points.len() ==> (#[trigger] points[i]).time is Some
}

/// Point `p` counts as stopped: its speed is at or below `stopped`.
pub open spec fn is_slow(p: EnrichedTrackPoint, stopped: u64) -> bool {
    match p.speed_kmh {
        Some(s) => s <= stopped,
        None => true,
    }
}

/// The first index from `from` on whose point counts as stopped, or the
/// number of points where there is none.
pub open spec fn first_slow(points: Seq<EnrichedTrackPoint>, stopped: u64, from: int) -> int
    decreases points.len() - from,
{
    if from >= points.len() {
        from
    } else if is_slow(points[from], stopped) {
        from
    } else {
        first_slow(points, stopped, from + 1)
    }
}

/// How far point `to` lies beyond point `from` along the track.
pub open spec fn path_between(points: Seq<EnrichedTrackPoint>, from: int, to: int) -> int {
    points[to].running_metres - points[from].running_metres
}

/// The first index from `from` on whose point lies more than `min` along the
/// track beyond point `anchor`, or the number of points where there is none.
pub open spec fn first_beyond(
    points: Seq<EnrichedTrackPoint>,
    anchor: int,
    min: u64,
    from: int,
) -> int
    decreases points.len() - from,
{
    if from >= points.len() {
        from
    } else if path_between(points, anchor, from) > min {
        from
    } else {
        first_beyond(points, anchor, min, from + 1)
    }
}

/// The time from point `from` to point `to`.
pub open spec fn time_between(points: Seq<EnrichedTrackPoint>, from: int, to: int) -> int {
    match (points[to].time, points[from].time) {
        (Some(t), Some(f)) => t - f,
        _ => 0,
    }
}

/// `first_slow` finds nothing before `from` and nothing past the end.
pub proof fn lemma_first_slow_bounds(points: Seq<EnrichedTrackPoint>, stopped: u64, from: int)
    requires
        from <= points.len(),
    ensures
        from <= first_slow(points, stopped, from) <= points.len(),
    decreases points.len() - from,
{
    if from < points.len() && !is_slow(points[from], stopped) {
        lemma_first_slow_bounds(points, stopped, from + 1);
    }
}

/// `first_beyond` finds nothing before `from` and nothing past the end.
pub proof fn lemma_first_beyond_bounds(
    points: Seq<EnrichedTrackPoint>,
    anchor: int,
    min: u64,
    from: int,
)
    requires
        from <= points.len(),
    ensures
        from <= first_beyond(points, anchor, min, from) <= points.len(),
    decreases points.len() - from,
{
    if from < points.len() && !(path_between(points, anchor, from) > min) {
        lemma_first_beyond_bounds(points, anchor, min, from + 1);
    }
}

/// Where a moving stage ends when the search for its halt has reached index
/// `from`.
///
/// The search runs to the first stopped point. The point before it is the
/// candidate end. From the stopped point the search runs on to the first
/// point that lies more than `min_metres_to_resume` along the track beyond
/// the candidate. If the time from the candidate to that point is at least
/// `min_duration_seconds` the candidate ends the stage; if not, the halt was
/// noise and the search begins again one point further on. A search that
/// runs out of points, with its first stopped point no earlier than the last
/// point or with no point far enough beyond the candidate, ends the stage
/// on the last point.
pub open spec fn stop_index(
    points: Seq<EnrichedTrackPoint>,
    params: StageDetectionParameters,
    from: int,
) -> int
    decreases points.len() - from,
{
    let last = points.len() - 1;
    let slow = first_slow(points, params.stopped_speed_kmh, from);
    if from > last || slow >= last {
        last
    } else {
        let resumed = first_beyond(points, slow - 1, params.min_metres_to_resume, slow);
        if resumed > last {
            last
        } else if time_between(points, slow - 1, resumed) >= params.min_duration_seconds {
            slow - 1
        } else {
            proof {
                lemma_first_slow_bounds(points, params.stopped_speed_kmh, from);
                lemma_first_beyond_bounds(points, slow - 1, params.min_metres_to_resume, slow);
            }
            stop_index(points, params, resumed + 1)
        }
    }
}

/// A moving stage whose search begins at `from` ends no earlier than the
/// point before `from` and no later than the last point.
pub proof fn lemma_stop_index_bounds(
    points: Seq<EnrichedTrackPoint>,
    params: StageDetectionParameters,
    from: int,
)
    requires
        1 <= from <= points.len(),
    ensures
        from - 1 <= stop_index(points, params, from) <= points.len() - 1,
    decreases points.len() - from,
{
    let last = points.len() - 1;
    let slow = first_slow(points, params.stopped_speed_kmh, from);
    lemma_first_slow_bounds(points, params.stopped_speed_kmh, from);
    if !(from > last || slow >= last) {
        let resumed = first_beyond(points, slow - 1, params.min_metres_to_resume, slow);
        lemma_first_beyond_bounds(points, slow - 1, params.min_metres_to_resume, slow);
        if resumed <= last && !(time_between(points, slow - 1, resumed)
            >= params.min_duration_seconds) {
            lemma_stop_index_bounds(points, params, resumed + 1);
        }
    }
}

/// Where a stationary stage that began at `start` ends when the search has
/// reached index `from`: on the first point that lies more than `min` from
/// the start as the crow flies, or on the last point where there is none.
pub open spec fn resume_index<F: Fn(Position, Position) -> u64>(
    points: Seq<EnrichedTrackPoint>,
    distance: &F,
    min: u64,
    start: int,
    from: int,
) -> int
    decreases points.len() - from,
{
    if from >= points.len() {
        points.len() - 1
    } else if distance_by(distance, points[start].position(), points[from].position()) > min {
        from
    } else {
        resume_index(points, distance, min, start, from + 1)
    }
}

/// A stationary stage whose search begins at `from` ends no earlier than
/// `from`, where there is such a point, and no later than the last point.
pub proof fn lemma_resume_index_bounds<F: Fn(Position, Position) -> u64>(
    points: Seq<EnrichedTrackPoint>,
    distance: &F,
    min: u64,
    start: int,
    from: int,
)
    requires
        0 <= start < points.len(),
        0 <= from <= points.len(),
    ensures
        resume_index(points, distance, min, start, from) <= points.len() - 1,
        from <= points.len() - 1 ==> from <= resume_index(points, distance, min, start, from),
    decreases points.len() - from,
{
    if from < points.len() && !(distance_by(
        distance,
        points[start].position(),
        points[from].position(),
    ) > min) {
        lemma_resume_index_bounds(points, distance, min, start, from + 1);
    }
}

/// Does point `p` count as stopped?
fn slow(p: &EnrichedTrackPoint, stopped: u64) -> (b: bool)
    ensures
        b == is_slow(*p, stopped),
{
    match p.speed_kmh {
        Some(s) => s <= stopped,
        None => true,
    }
}

/// A moving stage is ended when we stop. This occurs when we drop to the
/// stopped speed and do not move on by the resume distance for at least the
/// minimum duration. Finds the index of the point on which the stage ends.
pub fn find_stop_index(
    gpx: &EnrichedGpx,
    start_idx: usize,
    last_valid_idx: usize,
    params: &StageDetectionParameters,
) -> (end: usize)
    requires
        gpx.enriched(),
        all_timed(gpx.points@),
        last_valid_idx == gpx.points@.len() - 1,
        start_idx < last_valid_idx,
    ensures
        end == stop_index(gpx.points@, *params, start_idx + 1),
        start_idx <= end <= last_valid_idx,
{
    let ghost points = gpx.points@;
    let n: usize = gpx.points.len();
    let mut end_idx: usize = start_idx + 1;
    proof {
        lemma_stop_index_bounds(points, *params, start_idx + 1);
    }
    while end_idx <= last_valid_idx
        invariant
            points == gpx.points@,
            enriched_points(points),
            all_timed(points),
            last_valid_idx == points.len() - 1,
            n == points.len(),
            start_idx < end_idx <= last_valid_idx + 1,
            stop_index(points, *params, start_idx + 1) == stop_index(
                points,
                *params,
                end_idx as int,
            ),
        decreases last_valid_idx + 1 - end_idx,
    {
        let ghost from = end_idx as int;
        while end_idx <= last_valid_idx && !slow(&gpx.points[end_idx], params.stopped_speed_kmh)
            invariant
                points == gpx.points@,
                last_valid_idx == points.len() - 1,
                n == points.len(),
                from <= end_idx <= last_valid_idx + 1,
                first_slow(points, params.stopped_speed_kmh, from) == first_slow(
                    points,
                    params.stopped_speed_kmh,
                    end_idx as int,
                ),
            decreases last_valid_idx + 1 - end_idx,
        {
            end_idx += 1;
        }
        if end_idx >= last_valid_idx {
            return last_valid_idx;
        }
        // The stage would end on the point before the one we stopped on.

        let candidate: usize = end_idx - 1;
        let candidate_metres: u64 = gpx.points[candidate].running_metres;
        let ghost slow_at = end_idx as int;
        while end_idx <= last_valid_idx && gpx.points[end_idx].running_metres - candidate_metres
            <= params.min_metres_to_resume
            invariant
                points == gpx.points@,
                enriched_points(points),
                last_valid_idx == points.len() - 1,
                n == points.len(),
                candidate == slow_at - 1,
                0 <= candidate,
                candidate_metres == points[candidate as int].running_metres,
                slow_at <= end_idx <= last_valid_idx + 1,
                end_idx <= last_valid_idx ==> candidate_metres
                    <= points[end_idx as int].running_metres,
                first_beyond(points, slow_at - 1, params.min_metres_to_resume, slow_at)
                    == first_beyond(
                    points,
                    slow_at - 1,
                    params.min_metres_to_resume,
                    end_idx as int,
                ),
            decreases last_valid_idx + 1 - end_idx,
        {
            end_idx += 1;
            proof {
                if end_idx <= last_valid_idx {
                    lemma_running_totals_never_fall(points, candidate as int, end_idx as int);
                }
            }
        }
        if end_idx > last_valid_idx {
            return last_valid_idx;
        }
        // Is that a halt of sufficient length? The time of the candidate is
        // the time the halt began: the point after it may have been written
        // many minutes later.

        proof {
            assert(points[end_idx as int].fix_valid());
            assert(points[candidate as int].fix_valid());
        }
        let resumed_at: i64 = gpx.points[end_idx].time.unwrap();
        let halted_at: i64 = gpx.points[candidate].time.unwrap();
        let halt: i64 = resumed_at - halted_at;
        if halt >= 0 && halt as u64 >= params.min_duration_seconds {
            return candidate;
        }
        // Too short to be a halt: search on from the point we have reached.

        end_idx += 1;
    }
    last_valid_idx
}

/// A stationary stage is ended when we have moved more than
/// `min_metres_to_resume`. Readings can be very noisy when stopped, so this
/// goes by the distance from the start of the stage as the crow flies rather
/// than by the speed or by the path covered.
pub fn find_resume_index<F: Fn(Position, Position) -> u64>(
    gpx: &EnrichedGpx,
    start_idx: usize,
    last_valid_idx: usize,
    min_metres_to_resume: u64,
    distance: &F,
) -> (end: usize)
    requires
        measures(distance),
        last_valid_idx == gpx.points@.len() - 1,
        start_idx < last_valid_idx,
    ensures
        end == resume_index(
            gpx.points@,
            distance,
            min_metres_to_resume,
            start_idx as int,
            start_idx + 1,
        ),
        start_idx < end <= last_valid_idx,
{
    let n: usize = gpx.points.len();
    let start_pt: Position = gpx.points[start_idx].as_position();
    let mut end_index: usize = start_idx + 1;
    while end_index <= last_valid_idx
        invariant
            measures(distance),
            last_valid_idx == gpx.points@.len() - 1,
            n == gpx.points@.len(),
            start_idx < end_index <= last_valid_idx + 1,
            start_pt == gpx.points@[start_idx as int].position(),
            resume_index(
                gpx.points@,
                distance,
                min_metres_to_resume,
                start_idx as int,
                start_idx + 1,
            ) == resume_index(
                gpx.points@,
                distance,
                min_metres_to_resume,
                start_idx as int,
                end_index as int,
            ),
        decreases last_valid_idx + 1 - end_index,
    {
        let moved_metres: u64 = distance(start_pt, gpx.points[end_index].as_position());
        if moved_metres > min_metres_to_resume {
            return end_index;
        }
        end_index += 1;
    }
    last_valid_idx
}

/// Is `metres` in `duration` a slower pace than walking? Over no time there is
/// no pace and the answer is no; a negative duration makes a negative pace.
pub open spec fn slower_than_walking(metres: u64, duration: i64) -> bool {
    ||| duration > 0 && metres * 3600 < WALKING_PACE_KMH * duration
    ||| duration < 0
}

/// The type of a stage that runs from `start_point` to `last_point`, told by
/// the average speed between them: a control below walking pace, moving
/// otherwise.
pub open spec fn spec_classify_stage(
    start_point: EnrichedTrackPoint,
    last_point: EnrichedTrackPoint,
) -> StageType {
    let metres = if last_point.running_metres >= start_point.running_metres {
        (last_point.running_metres - start_point.running_metres) as u64
    } else {
        0
    };
    match checked_difference(last_point.time, start_point.time) {
        Some(duration) => if slower_than_walking(metres, duration) {
            StageType::Control
        } else {
            StageType::Moving
        },
        None => StageType::Moving,
    }
}

/// Has the track, by point `i`, run for the settling time since the leg into
/// its second point began?
pub open spec fn settled(points: Seq<EnrichedTrackPoint>, i: int) -> bool {
    match checked_difference(points[i].time, points[1].spec_start_time()) {
        Some(d) => d >= SETTLING_SECONDS,
        None => false,
    }
}

/// The first index from `from` on by which the track has settled, or the
/// last index where it never does.
pub open spec fn settled_index(points: Seq<EnrichedTrackPoint>, from: int) -> int
    decreases points.len() - from,
{
    if from >= points.len() - 1 {
        points.len() - 1
    } else if settled(points, from) {
        from
    } else {
        settled_index(points, from + 1)
    }
}

/// The type of the first stage of a track of two points or more: that of the
/// stretch from the second point to the point by which the track has settled.
pub open spec fn starting_stage_type(points: Seq<EnrichedTrackPoint>) -> StageType {
    spec_classify_stage(points[1], points[settled_index(points, 1)])
}

/// Classifies a stage, based on the average speed within that stage.
pub fn classify_stage(start_point: &EnrichedTrackPoint, last_point: &EnrichedTrackPoint) -> (t:
    StageType)
    ensures
        t == spec_classify_stage(*start_point, *last_point),
{
    let metres: u64 = last_point.running_metres.saturating_sub(start_point.running_metres);
    match difference(last_point.time, start_point.time) {
        Some(duration) => {
            if duration < 0 {
                StageType::Control
            } else if duration == 0 {
                StageType::Moving
            } else {
                let covered: u128 = (metres as u128) * 3600;
                let walked: u128 = (WALKING_PACE_KMH as u128) * (duration as u128);
                if covered < walked {
                    StageType::Control
                } else {
                    StageType::Moving
                }
            }
        },
        None => StageType::Moving,
    }
}

/// Tries to figure out whether we are starting moving or stopped by looking
/// at the average speed over the first three minutes, or over the whole
/// track where it is shorter.
pub fn get_starting_stage_type(gpx: &EnrichedGpx) -> (t: StageType)
    requires
        gpx.points@.len() >= 2,
    ensures
        t == starting_stage_type(gpx.points@),
{
    let last_valid_idx: usize = gpx.points.len() - 1;
    let start: &EnrichedTrackPoint = &gpx.points[1];
    let began: Option<i64> = start.start_time();
    let mut end_idx: usize = 1;
    while end_idx < last_valid_idx
        invariant
            last_valid_idx == gpx.points@.len() - 1,
            1 <= end_idx <= last_valid_idx,
            *start == gpx.points@[1],
            began == gpx.points@[1].spec_start_time(),
            settled_index(gpx.points@, 1) == settled_index(gpx.points@, end_idx as int),
        decreases last_valid_idx - end_idx,
    {
        let has_settled: bool = match difference(gpx.points[end_idx].time, began) {
            Some(d) => d >= SETTLING_SECONDS,
            None => false,
        };
        if has_settled {
            return classify_stage(start, &gpx.points[end_idx]);
        }
        end_idx += 1;
    }
    classify_stage(start, &gpx.points[end_idx])
}

/// The index on which a stage of type `stage_type` that starts at `start`
/// ends.
pub open spec fn stage_end<F: Fn(Position, Position) -> u64>(
    points: Seq<EnrichedTrackPoint>,
    params: StageDetectionParameters,
    distance: &F,
    stage_type: StageType,
    start: int,
) -> int {
    match stage_type {
        StageType::Moving => stop_index(points, params, start + 1),
        StageType::Control => resume_index(
            points,
            distance,
            params.min_metres_to_resume,
            start,
            start + 1,
        ),
    }
}

/// A stage that starts before the last point ends at or after its start and
/// no later than the last point.
pub proof fn lemma_stage_end_bounds<F: Fn(Position, Position) -> u64>(
    points: Seq<EnrichedTrackPoint>,
    params: StageDetectionParameters,
    distance: &F,
    stage_type: StageType,
    start: int,
)
    requires
        0 <= start < points.len() - 1,
    ensures
        start <= stage_end(points, params, distance, stage_type, start) <= points.len() - 1,
{
    lemma_stop_index_bounds(points, params, start + 1);
    lemma_resume_index_bounds(points, distance, params.min_metres_to_resume, start, start + 1);
}

/// The stage of type `stage_type` that holds the points `start..=end`, with
/// the extremes and means of its points.
pub open spec fn stage_of(
    points: Seq<EnrichedTrackPoint>,
    stage_type: StageType,
    start: int,
    end: int,
) -> Stage {
    Stage {
        stage_type,
        track_start_point: points[0],
        start: points[start],
        end: points[end],
        min_elevation: min_elevation_point(points, start, end),
        max_elevation: max_elevation_point(points, start, end),
        max_speed: max_speed_point(points, start, end),
        avg_heart_rate: mean_heart_rate(points, start, end),
        max_heart_rate: max_heart_rate_point(points, start, end),
        avg_air_temp: mean_air_temp(points, start, end),
        min_air_temp: min_air_temp_point(points, start, end),
        max_air_temp: max_air_temp_point(points, start, end),
    }
}

/// The stages from index `start` on, the first of them of type `stage_type`
/// and each of the other type than the one before. A stage starts on the
/// point after the one that the stage before ended on, and none starts on or
/// after the last point.
pub open spec fn stages_from<F: Fn(Position, Position) -> u64>(
    points: Seq<EnrichedTrackPoint>,
    params: StageDetectionParameters,
    distance: &F,
    stage_type: StageType,
    start: int,
) -> Seq<Stage>
    decreases points.len() - start,
{
    if start < 0 || start >= points.len() - 1 {
        Seq::empty()
    } else {
        let end = stage_end(points, params, distance, stage_type, start);
        proof {
            lemma_stage_end_bounds(points, params, distance, stage_type, start);
        }
        seq![stage_of(points, stage_type, start, end)] + stages_from(
            points,
            params,
            distance,
            stage_type.toggled(),
            end + 1,
        )
    }
}

/// The stages of a track. A track of fewer than two points, or with a point
/// that has no instant, has none.
pub open spec fn spec_detect_stages<F: Fn(Position, Position) -> u64>(
    points: Seq<EnrichedTrackPoint>,
    params: StageDetectionParameters,
    distance: &F,
) -> Seq<Stage> {
    if points.len() < 2 || !all_timed(points) {
        Seq::empty()
    } else {
        stages_from(points, params, distance, starting_stage_type(points), 0)
    }
}

/// Finds the stage of type `stage_type` that starts at `start_idx`, or
/// nothing where the points are exhausted: no stage starts on the last point.
pub fn get_next_stage<F: Fn(Position, Position) -> u64>(
    stage_type: StageType,
    start_idx: usize,
    gpx: &EnrichedGpx,
    params: &StageDetectionParameters,
    distance: &F,
) -> (next: Option<Stage>)
    requires
        gpx.enriched(),
        all_timed(gpx.points@),
        measures(distance),
        gpx.points@.len() >= 1,
    ensures
        start_idx >= gpx.points@.len() - 1 ==> next is None,
        start_idx < gpx.points@.len() - 1 ==> next == Some(
            stage_of(
                gpx.points@,
                stage_type,
                start_idx as int,
                stage_end(gpx.points@, *params, distance, stage_type, start_idx as int),
            ),
        ),
{
    let last_valid_idx: usize = gpx.last_valid_idx();
    if start_idx >= last_valid_idx {
        return None;
    }
    // A moving stage ends on the point before the speed drops to the limit.
    // A stationary stage ends when we have moved some distance.

    let end_idx: usize = match stage_type {
        StageType::Moving => find_stop_index(gpx, start_idx, last_valid_idx, params),
        StageType::Control => find_resume_index(
            gpx,
            start_idx,
            last_valid_idx,
            params.min_metres_to_resume,
            distance,
        ),
    };
    proof {
        assert forall|i: int| start_idx <= i <= end_idx implies ((
        #[trigger] gpx.points@[i]).air_temp matches Some(t) ==> crate::point::magnitude_in_range(
            t,
        )) by {
            assert(gpx.points@[i].fix_valid());
        }
    }
    let (min_elevation, max_elevation) = find_min_and_max_elevation_points(gpx, start_idx, end_idx);
    let (max_heart_rate, avg_heart_rate) = find_heart_rates(gpx, start_idx, end_idx);
    let (min_air_temp, max_air_temp, avg_air_temp) = find_air_temps(gpx, start_idx, end_idx);
    Some(
        Stage {
            stage_type,
            track_start_point: gpx.points[0],
            start: gpx.points[start_idx],
            end: gpx.points[end_idx],
            min_elevation,
            max_elevation,
            max_speed: find_max_speed(gpx, start_idx, end_idx),
            avg_heart_rate,
            max_heart_rate,
            avg_air_temp,
            min_air_temp,
            max_air_temp,
        },
    )
}

/// Does every point have an instant?
fn every_point_timed(gpx: &EnrichedGpx) -> (b: bool)
    ensures
        b == all_timed(gpx.points@),
{
    let n: usize = gpx.points.len();
    let mut i: usize = 0;
    while i < n
        invariant
            n == gpx.points@.len(),
            i <= n,
            forall|j: int| 0 <= j < i ==> (#[trigger] gpx.points@[j]).time is Some,
        decreases n - i,
    {
        if gpx.points[i].time.is_none() {
            return false;
        }
        i += 1;
    }
    true
}

/// Finds the stages of a track one after the other until its points are
/// exhausted.
fn scan_stages<F: Fn(Position, Position) -> u64>(
    gpx: &EnrichedGpx,
    params: &StageDetectionParameters,
    distance: &F,
) -> (stages: StageList)
    requires
        gpx.enriched(),
        measures(distance),
    ensures
        stages@ == spec_detect_stages(gpx.points@, *params, distance),
{
    let mut stages: StageList = StageList::new();
    let n: usize = gpx.points.len();
    if n < 2 {
        return stages;
    }
    // If we don't have time there is nothing we can do.

    if !every_point_timed(gpx) {
        return stages;
    }
    // We alternate stage types, but instead of assuming that we start off
    // moving we try to figure it out: the recording may well have been
    // started some while before setting off.

    let mut start_idx: usize = 0;
    let mut stage_type: StageType = get_starting_stage_type(gpx);
    let ghost whole = spec_detect_stages(gpx.points@, *params, distance);
    loop
        invariant
            gpx.enriched(),
            all_timed(gpx.points@),
            measures(distance),
            n == gpx.points@.len(),
            n >= 2,
            start_idx <= n,
            whole == stages@ + stages_from(
                gpx.points@,
                *params,
                distance,
                stage_type,
                start_idx as int,
            ),
        ensures
            whole == stages@,
        decreases n - start_idx,
    {
        match get_next_stage(stage_type, start_idx, gpx, params, distance) {
            Some(stage) => {
                proof {
                    lemma_stage_end_bounds(
                        gpx.points@,
                        *params,
                        distance,
                        stage_type,
                        start_idx as int,
                    );
                    let end = stage_end(
                        gpx.points@,
                        *params,
                        distance,
                        stage_type,
                        start_idx as int,
                    );
                    assert(gpx.points@[end].index == end);
                    let rest = stages_from(
                        gpx.points@,
                        *params,
                        distance,
                        stage_type.toggled(),
                        end + 1,
                    );
                    assert(stages@.push(stage) + rest =~= stages@ + (seq![stage] + rest));
                }
                // Stages do not share points, the next stage starts on the
                // next point.

                start_idx = stage.end.index + 1;
                stages.push(stage);
                stage_type = stage_type.toggle();
            },
            None => {
                assert(stages@ + Seq::<Stage>::empty() =~= stages@);
                break ;
            },
        }
    }
    stages
}

/// Each stage holds at least one point and each starts on the point after
/// the one that the stage before it ended on.
pub open spec fn stages_contiguous(stages: Seq<Stage>) -> bool {
    &&& forall|i: int|
        0 <= i < stages.len() ==> (#[trigger] stages[i]).start.index <= stages[i].end.index
    &&& forall|i: int, j: int|
        0 <= i && j == i + 1 && j < stages.len() ==> (#[trigger] stages[i]).end.index + 1 == (
        #[trigger] stages[j]).start.index
}

/// No two stages in a row are of one type.
pub open spec fn stages_alternate(stages: Seq<Stage>) -> bool {
    forall|i: int, j: int|
        0 <= i && j == i + 1 && j < stages.len() ==> (#[trigger] stages[i]).stage_type != (
        #[trigger] stages[j]).stage_type
}

/// The stages hold every one of `n` points, each in one stage: the first
/// begins on the first point, the last ends on the last, and they follow
/// each other without a gap.
pub open spec fn stages_cover(stages: Seq<Stage>, n: int) -> bool {
    &&& stages.len() > 0
    &&& stages[0].start.index == 0
    &&& stages[stages.len() - 1].end.index == n - 1
    &&& stages_contiguous(stages)
}

/// The stages from `start` on begin at `start` with the given type, follow
/// each other without gap or overlap, change type each time, and reach the
/// last point or the one before it.
pub proof fn lemma_stages_from_chain<F: Fn(Position, Position) -> u64>(
    points: Seq<EnrichedTrackPoint>,
    params: StageDetectionParameters,
    distance: &F,
    stage_type: StageType,
    start: int,
)
    requires
        enriched_points(points),
        0 <= start,
    ensures
        ({
            let stages = stages_from(points, params, distance, stage_type, start);
            &&& start >= points.len() - 1 <==> stages.len() == 0
            &&& stages.len() > 0 ==> stages[0].start.index == start && stages[0].stage_type
                == stage_type && points.len() - 2 <= stages[stages.len() - 1].end.index
                <= points.len() - 1
            &&& forall|i: int|
                0 <= i < stages.len() ==> start <= (#[trigger] stages[i]).start.index
                    <= stages[i].end.index <= points.len() - 1
            &&& stages_contiguous(stages)
            &&& stages_alternate(stages)
        }),
    decreases points.len() - start,
{
    if start < points.len() - 1 {
        let end = stage_end(points, params, distance, stage_type, start);
        lemma_stage_end_bounds(points, params, distance, stage_type, start);
        let first = stage_of(points, stage_type, start, end);
        let rest = stages_from(points, params, distance, stage_type.toggled(), end + 1);
        let stages = stages_from(points, params, distance, stage_type, start);
        lemma_stages_from_chain(points, params, distance, stage_type.toggled(), end + 1);
        assert(stages == seq![first] + rest);
        assert(stages[0] == first);
        assert(points[start].index == start);
        assert(points[end].index == end);
        assert forall|i: int| 1 <= i < stages.len() implies stages[i] == rest[i - 1] by {}
        assert forall|i: int| 0 <= i < stages.len() implies start <= (
        #[trigger] stages[i]).start.index <= stages[i].end.index <= points.len() - 1 by {
            if i >= 1 {
                assert(stages[i] == rest[i - 1]);
            }
        }
        assert forall|i: int, j: int| 0 <= i && j == i + 1 && j < stages.len() implies (
        #[trigger] stages[i]).end.index + 1 == (#[trigger] stages[j]).start.index
            && stages[i].stage_type != stages[j].stage_type by {
            assert(stages[j] == rest[j - 1]);
            if i >= 1 {
                assert(stages[i] == rest[i - 1]);
            }
        }
        if rest.len() > 0 {
            assert(stages[stages.len() - 1] == rest[rest.len() - 1]);
        }
    }
}

/// Each of the stages from `start` on is the stage of the points from its
/// start to its end.
pub proof fn lemma_stages_are_stages_of<F: Fn(Position, Position) -> u64>(
    points: Seq<EnrichedTrackPoint>,
    params: StageDetectionParameters,
    distance: &F,
    stage_type: StageType,
    start: int,
)
    requires
        enriched_points(points),
        0 <= start,
    ensures
        ({
            let stages = stages_from(points, params, distance, stage_type, start);
            forall|i: int|
                0 <= i < stages.len() ==> #[trigger] stages[i] == stage_of(
                    points,
                    stages[i].stage_type,
                    stages[i].start.index as int,
                    stages[i].end.index as int,
                )
        }),
    decreases points.len() - start,
{
    if start < points.len() - 1 {
        let end = stage_end(points, params, distance, stage_type, start);
        lemma_stage_end_bounds(points, params, distance, stage_type, start);
        let first = stage_of(points, stage_type, start, end);
        let rest = stages_from(points, params, distance, stage_type.toggled(), end + 1);
        let stages = stages_from(points, params, distance, stage_type, start);
        lemma_stages_are_stages_of(points, params, distance, stage_type.toggled(), end + 1);
        assert(stages == seq![first] + rest);
        assert(points[start].index == start);
        assert(points[end].index == end);
        assert forall|i: int| 0 <= i < stages.len() implies #[trigger] stages[i] == stage_of(
            points,
            stages[i].stage_type,
            stages[i].start.index as int,
            stages[i].end.index as int,
        ) by {
            if i >= 1 {
                assert(stages[i] == rest[i - 1]);
            } else {
                assert(stages[0] == first);
            }
        }
    }
}

/// A point between the start of the first of some stages that follow each
/// other without a gap and the end of the last of them lies in one of them.
pub proof fn lemma_point_lies_in_a_stage(stages: Seq<Stage>, n: int, i: int)
    requires
        1 <= n <= stages.len(),
        stages_contiguous(stages),
        stages[0].start.index <= i <= stages[n - 1].end.index,
    ensures
        exists|j: int|
            0 <= j < n && (#[trigger] stages[j]).start.index <= i <= stages[j].end.index,
    decreases n,
{
    if i >= stages[n - 1].start.index {
        assert(stages[n - 1].start.index <= i <= stages[n - 1].end.index);
    } else {
        assert(stages[n - 2].end.index + 1 == stages[n - 1].start.index);
        lemma_point_lies_in_a_stage(stages, n - 1, i);
    }
}

/// The reading by which the extreme `which` goes.
pub open spec fn reading_of(which: Extreme) -> Reading {
    match which {
        Extreme::MinElevation | Extreme::MaxElevation => Reading::Elevation,
        Extreme::MaxSpeed => Reading::Speed,
        Extreme::MaxHeartRate => Reading::HeartRate,
        Extreme::MinTemperature | Extreme::MaxTemperature => Reading::AirTemp,
    }
}

/// Each of the stages is the stage of the points from its start to its end,
/// which lie in the track.
pub open spec fn stages_of_points(stages: Seq<Stage>, points: Seq<EnrichedTrackPoint>) -> bool {
    forall|j: int|
        0 <= j < stages.len() ==> 0 <= (#[trigger] stages[j]).start.index <= stages[j].end.index
            < points.len() && stages[j] == stage_of(
            points,
            stages[j].stage_type,
            stages[j].start.index as int,
            stages[j].end.index as int,
        )
}

/// What the stage of the points `a..=b` holds as its extreme is the extreme
/// of these points: it lies among them, has a reading, and its reading is as
/// good as that of any of them. The stage holds none only where none of its
/// points has a reading.
pub proof fn lemma_stage_extreme(
    points: Seq<EnrichedTrackPoint>,
    stage_type: StageType,
    a: int,
    b: int,
    which: Extreme,
)
    requires
        0 <= a <= b < points.len(),
        which != Extreme::MaxSpeed,
        reading_of(which) == Reading::Elevation ==> all_read(points, Reading::Elevation, a, b),
    ensures
        ({
            let held = extreme_point(stage_of(points, stage_type, a, b), which);
            let r = reading_of(which);
            &&& held matches Some(q) ==> reading(q, r) is Some && rank(q, which) == reading(
                q,
                r,
            )->0 && (exists|k: int| a <= k <= b && q == points[k]) && (forall|i: int|
                a <= i <= b && reading(#[trigger] points[i], r) is Some ==> as_good(
                    which,
                    reading(q, r)->0,
                    reading(points[i], r)->0,
                ))
            &&& held is None ==> forall|i: int|
                a <= i <= b ==> reading(#[trigger] points[i], r) is None
        }),
{
    let r = reading_of(which);
    lemma_first_least_is_least(points, r, a, b);
    lemma_first_greatest_is_greatest(points, r, a, b);
}

/// A point of a track that its stages cover, held against the extreme of the
/// list of stages: where the point has a reading, the list has an extreme,
/// and that is as good.
pub proof fn lemma_point_against_list_extreme(
    stages: Seq<Stage>,
    points: Seq<EnrichedTrackPoint>,
    which: Extreme,
    i: int,
)
    requires
        stages_cover(stages, points.len() as int),
        stages_of_points(stages, points),
        which != Extreme::MaxSpeed,
        reading_of(which) == Reading::Elevation ==> all_read(
            points,
            Reading::Elevation,
            0,
            points.len() - 1,
        ),
        0 <= i < points.len(),
        reading(points[i], reading_of(which)) is Some,
    ensures
        extreme_of(stages, which) matches Some(p) && reading(p, reading_of(which)) is Some
            && as_good(
            which,
            reading(p, reading_of(which))->0,
            reading(points[i], reading_of(which))->0,
        ),
{
    let n = stages.len() as int;
    let r = reading_of(which);
    lemma_point_lies_in_a_stage(stages, n, i);
    let j = choose|j: int|
        0 <= j < n && (#[trigger] stages[j]).start.index <= i <= stages[j].end.index;
    let a = stages[j].start.index as int;
    let b = stages[j].end.index as int;
    lemma_stage_extreme(points, stages[j].stage_type, a, b, which);
    assert(stages[j] == stage_of(points, stages[j].stage_type, a, b));
    assert(reading(points[i], r) is Some);
    let q = extreme_point(stages[j], which)->0;
    assert(extreme_point(stages[j], which) is Some);
    lemma_list_extreme_is_extreme(stages, which, n);
    let best = extreme_stage(stages, which, n)->0;
    let p = extreme_point(stages[best], which)->0;
    lemma_stage_extreme(
        points,
        stages[best].stage_type,
        stages[best].start.index as int,
        stages[best].end.index as int,
        which,
    );
    assert(stages[best] == stage_of(
        points,
        stages[best].stage_type,
        stages[best].start.index as int,
        stages[best].end.index as int,
    ));
    assert(as_good(which, rank(p, which), rank(q, which)));
}

/// The extremes of the stages of a track are extremes of the track: an
/// extreme of the whole is the extreme of one of its stages.
///
/// The point of highest heart rate, of lowest and of highest temperature
/// of the list has a reading that is as good as that of every point of the
/// track that has one. The same holds of the points of lowest and of highest
/// elevation where every point of the track has an elevation. It does not
/// hold of the highest speed: the first point of a track has no speed, so
/// the first stage has no fastest point.
pub proof fn lemma_extreme_of_stages_is_extreme_of_track<F: Fn(Position, Position) -> u64>(
    points: Seq<EnrichedTrackPoint>,
    params: StageDetectionParameters,
    distance: &F,
    which: Extreme,
    i: int,
)
    requires
        enriched_points(points),
        points.len() >= 2,
        all_timed(points),
        leaves_no_point_out(spec_detect_stages(points, params, distance), points.len() as int),
        which != Extreme::MaxSpeed,
        reading_of(which) == Reading::Elevation ==> all_read(
            points,
            Reading::Elevation,
            0,
            points.len() - 1,
        ),
        0 <= i < points.len(),
        reading(points[i], reading_of(which)) is Some,
    ensures
        extreme_of(spec_detect_stages(points, params, distance), which) matches Some(p)
            && reading(p, reading_of(which)) is Some && as_good(
            which,
            reading(p, reading_of(which))->0,
            reading(points[i], reading_of(which))->0,
        ),
{
    let stages = spec_detect_stages(points, params, distance);
    lemma_stages_from_chain(points, params, distance, starting_stage_type(points), 0);
    lemma_stages_are_stages_of(points, params, distance, starting_stage_type(points), 0);
    assert(stages_of_points(stages, points));
    lemma_point_against_list_extreme(stages, points, which, i);
}

/// A track that can be staged gets stages that begin on its first point,
/// follow each other without gap or overlap and reach its last point,
/// unless one of them ends on the last point but one: no stage starts on the
/// last point, so that point is then left out.
pub proof fn lemma_stages_cover_track<F: Fn(Position, Position) -> u64>(
    points: Seq<EnrichedTrackPoint>,
    params: StageDetectionParameters,
    distance: &F,
)
    requires
        enriched_points(points),
        points.len() >= 2,
        all_timed(points),
        leaves_no_point_out(spec_detect_stages(points, params, distance), points.len() as int),
    ensures
        stages_cover(spec_detect_stages(points, params, distance), points.len() as int),
{
    lemma_stages_from_chain(points, params, distance, starting_stage_type(points), 0);
}

/// The stages of a track are in turn moving and stationary.
pub proof fn lemma_stages_alternate<F: Fn(Position, Position) -> u64>(
    points: Seq<EnrichedTrackPoint>,
    params: StageDetectionParameters,
    distance: &F,
)
    requires
        enriched_points(points),
    ensures
        stages_alternate(spec_detect_stages(points, params, distance)),
{
    if points.len() >= 2 && all_timed(points) {
        lemma_stages_from_chain(points, params, distance, starting_stage_type(points), 0);
    }
}

/// The last of the stages does not stop short of the last of `n` points.
pub open spec fn leaves_no_point_out(stages: Seq<Stage>, n: int) -> bool {
    stages.len() > 0 ==> stages[stages.len() - 1].end.index == n - 1
}

/// A halt that is too short does not end a moving stage. Where the search
/// for the end of a moving stage, begun at `from`, comes on a stopped point
/// `slow`, and the track has moved on by point `resumed` before the minimum
/// duration has passed, the stage ends where a search begun after `resumed`
/// ends it: no earlier than `resumed` itself, and so not at the halt.
pub proof fn lemma_short_halt_is_absorbed(
    points: Seq<EnrichedTrackPoint>,
    params: StageDetectionParameters,
    from: int,
    slow: int,
    resumed: int,
)
    requires
        1 <= from <= points.len(),
        slow == first_slow(points, params.stopped_speed_kmh, from),
        resumed == first_beyond(points, slow - 1, params.min_metres_to_resume, slow),
        resumed <= points.len() - 1,
        time_between(points, slow - 1, resumed) < params.min_duration_seconds,
    ensures
        stop_index(points, params, from) == stop_index(points, params, resumed + 1),
        stop_index(points, params, from) >= resumed,
        stop_index(points, params, from) > slow - 1,
{
    lemma_first_slow_bounds(points, params.stopped_speed_kmh, from);
    lemma_first_beyond_bounds(points, slow - 1, params.min_metres_to_resume, slow);
    lemma_stop_index_bounds(points, params, resumed + 1);
}

/// The first stopped point from `from` on is `at`, where no point from
/// `from` up to `at` is stopped and `at` is stopped or past the last point.
pub proof fn lemma_first_slow_is(
    points: Seq<EnrichedTrackPoint>,
    stopped: u64,
    from: int,
    at: int,
)
    requires
        0 <= from <= at <= points.len(),
        forall|i: int| from <= i < at ==> !is_slow(#[trigger] points[i], stopped),
        at < points.len() ==> is_slow(points[at], stopped),
    ensures
        first_slow(points, stopped, from) == at,
    decreases at - from,
{
    if from < at {
        lemma_first_slow_is(points, stopped, from + 1, at);
    }
}

/// The first stopped point from `from` on is stopped, where there is one.
pub proof fn lemma_first_slow_is_slow(points: Seq<EnrichedTrackPoint>, stopped: u64, from: int)
    requires
        0 <= from,
    ensures
        first_slow(points, stopped, from) < points.len() ==> is_slow(
            points[first_slow(points, stopped, from)],
            stopped,
        ),
    decreases points.len() - from,
{
    if from < points.len() && !is_slow(points[from], stopped) {
        lemma_first_slow_is_slow(points, stopped, from + 1);
    }
}

/// The point by which the track has moved on from a halt that began at
/// `slow`: the first from `slow` on that lies more than the distance to
/// resume along the track beyond the point before `slow`, or the number of
/// points where there is none.
pub open spec fn resumption(
    points: Seq<EnrichedTrackPoint>,
    params: StageDetectionParameters,
    slow: int,
) -> int {
    first_beyond(points, slow - 1, params.min_metres_to_resume, slow)
}

/// Every halt from `from` on is too short to count: wherever a point
/// before the last is stopped and the track moves on from it, it has moved
/// on before the minimum duration has passed since the point before the
/// stopped one.
pub open spec fn halts_are_short(
    points: Seq<EnrichedTrackPoint>,
    params: StageDetectionParameters,
    from: int,
) -> bool {
    forall|s: int|
        from <= s < points.len() - 1 && is_slow(#[trigger] points[s], params.stopped_speed_kmh)
            && resumption(points, params, s) <= points.len() - 1 ==> time_between(
            points,
            s - 1,
            resumption(points, params, s),
        ) < params.min_duration_seconds
}

/// Halts that are too short do not end a moving stage: where every halt
/// from `from` on is too short, a moving stage whose search begins at
/// `from` runs to the last point.
pub proof fn lemma_short_halts_are_absorbed(
    points: Seq<EnrichedTrackPoint>,
    params: StageDetectionParameters,
    from: int,
)
    requires
        1 <= from <= points.len(),
        halts_are_short(points, params, from),
    ensures
        stop_index(points, params, from) == points.len() - 1,
    decreases points.len() - from,
{
    let last = points.len() - 1;
    let slow = first_slow(points, params.stopped_speed_kmh, from);
    lemma_first_slow_bounds(points, params.stopped_speed_kmh, from);
    lemma_first_slow_is_slow(points, params.stopped_speed_kmh, from);
    if !(from > last || slow >= last) {
        let resumed = resumption(points, params, slow);
        lemma_first_beyond_bounds(points, slow - 1, params.min_metres_to_resume, slow);
        if resumed <= last {
            assert(is_slow(points[slow], params.stopped_speed_kmh));
            lemma_short_halts_are_absorbed(points, params, resumed + 1);
        }
    }
}

/// Noise makes no stationary stage. A track that starts on the move, and
/// on which every halt is too short to count, is one moving stage from its
/// first point to its last.
pub proof fn lemma_noise_makes_no_control<F: Fn(Position, Position) -> u64>(
    points: Seq<EnrichedTrackPoint>,
    params: StageDetectionParameters,
    distance: &F,
)
    requires
        points.len() >= 2,
        all_timed(points),
        starting_stage_type(points) == StageType::Moving,
        halts_are_short(points, params, 1),
    ensures
        spec_detect_stages(points, params, distance) == seq![
            stage_of(points, StageType::Moving, 0, points.len() - 1),
        ],
{
    lemma_short_halts_are_absorbed(points, params, 1);
    let rest = stages_from(points, params, distance, StageType::Control, points.len() as int);
    assert(rest =~= Seq::<Stage>::empty());
    assert(spec_detect_stages(points, params, distance) =~= seq![
        stage_of(points, StageType::Moving, 0, points.len() - 1),
    ]);
}

/// One short dip makes no stationary stage. A track that starts on the
/// move and is stopped on the points `first` to `last` and on no other
/// after its first point, and that has moved on from the dip by a point
/// that is no earlier than `last` before the minimum duration has passed
/// since the point before the dip, is one moving stage from its first point
/// to its last.
pub proof fn lemma_short_dip_makes_no_control<F: Fn(Position, Position) -> u64>(
    points: Seq<EnrichedTrackPoint>,
    params: StageDetectionParameters,
    distance: &F,
    first: int,
    last: int,
)
    requires
        points.len() >= 2,
        all_timed(points),
        starting_stage_type(points) == StageType::Moving,
        1 <= first <= last < points.len(),
        forall|i: int|
            1 <= i < points.len() ==> (is_slow(#[trigger] points[i], params.stopped_speed_kmh)
                <==> first <= i <= last),
        resumption(points, params, first) <= points.len() - 1 ==> last <= resumption(
            points,
            params,
            first,
        ) && time_between(points, first - 1, resumption(points, params, first))
            < params.min_duration_seconds,
    ensures
        spec_detect_stages(points, params, distance) == seq![
            stage_of(points, StageType::Moving, 0, points.len() - 1),
        ],
{
    let end = points.len() - 1;
    lemma_first_slow_is(points, params.stopped_speed_kmh, 1, first);
    let resumed = resumption(points, params, first);
    lemma_first_beyond_bounds(points, first - 1, params.min_metres_to_resume, first);
    if first < end && resumed <= end {
        if resumed + 1 <= end {
            lemma_first_slow_is(
                points,
                params.stopped_speed_kmh,
                resumed + 1,
                points.len() as int,
            );
        }
        assert(stop_index(points, params, resumed + 1) == end);
    }
    assert(stop_index(points, params, 1) == end);
    let rest = stages_from(points, params, distance, StageType::Control, points.len() as int);
    assert(rest =~= Seq::<Stage>::empty());
    assert(spec_detect_stages(points, params, distance) =~= seq![
        stage_of(points, StageType::Moving, 0, points.len() - 1),
    ]);
}

/// Detects the stages in the track and returns them as a list.
///
/// The first stage starts at point 0 and each further stage on the point
/// after the one before it ended on, so that no point is in two stages. The
/// stages are in turn moving and stationary; which of the two the first one
/// is, is told from the average speed over the beginning of the track.
///
/// A track with fewer than two points, or with a point that has no instant,
/// has no stages. A track on which a stage would end on the last point but
/// one cannot be staged, since its last point would be in no stage: see
/// [`try_detect_stages`].
pub fn detect_stages<F: Fn(Position, Position) -> u64>(
    gpx: &EnrichedGpx,
    params: StageDetectionParameters,
    distance: &F,
) -> (stages: StageList)
    requires
        gpx.enriched(),
        measures(distance),
        leaves_no_point_out(
            spec_detect_stages(gpx.points@, params, distance),
            gpx.points@.len() as int,
        ),
    ensures
        stages@ == spec_detect_stages(gpx.points@, params, distance),
        gpx.points@.len() < 2 || !all_timed(gpx.points@) <==> stages@.len() == 0,
        stages@.len() > 0 ==> stages_cover(stages@, gpx.points@.len() as int),
        stages_alternate(stages@),
{
    proof {
        lemma_stages_alternate(gpx.points@, params, distance);
        if gpx.points@.len() >= 2 && all_timed(gpx.points@) {
            lemma_stages_from_chain(
                gpx.points@,
                params,
                distance,
                starting_stage_type(gpx.points@),
                0,
            );
        }
    }
    scan_stages(gpx, &params, distance)
}

/// Detects the stages in the track as [`detect_stages`] does, and returns
/// nothing where they would leave the last point of the track out.
pub fn try_detect_stages<F: Fn(Position, Position) -> u64>(
    gpx: &EnrichedGpx,
    params: StageDetectionParameters,
    distance: &F,
) -> (found: Option<StageList>)
    requires
        gpx.enriched(),
        measures(distance),
    ensures
        found is Some <==> leaves_no_point_out(
            spec_detect_stages(gpx.points@, params, distance),
            gpx.points@.len() as int,
        ),
        found matches Some(stages) ==> stages@ == spec_detect_stages(gpx.points@, params, distance)
            && stages_alternate(stages@) && (stages@.len() > 0 ==> stages_cover(
            stages@,
            gpx.points@.len() as int,
        )),
{
    proof {
        lemma_stages_alternate(gpx.points@, params, distance);
        if gpx.points@.len() >= 2 && all_timed(gpx.points@) {
            lemma_stages_from_chain(
                gpx.points@,
                params,
                distance,
                starting_stage_type(gpx.points@),
                0,
            );
        }
    }
    let stages: StageList = scan_stages(gpx, &params, distance);
    let count: usize = stages.len();
    if count == 0 {
        return Some(stages);
    }
    let n: usize = gpx.points.len();
    if stages.last_point().index == n - 1 {
        Some(stages)
    } else {
        None
    }
}

} // verus!
