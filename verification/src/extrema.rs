//! Extremes and averages of one reading over a run of points.

use vstd::prelude::*;
use crate::enrich::EnrichedGpx;
use crate::point::{EnrichedTrackPoint, MAX_MAGNITUDE};

verus! {

/// The readings of a point that a stage is summarised by.
#[derive(Clone, Copy, Debug, PartialEq, Eq, Structural)]
pub enum Reading {
    Elevation,
    Speed,
    HeartRate,
    AirTemp,
}

/// What point `p` shows for `which`, if anything.
pub open spec fn reading(p: EnrichedTrackPoint, which: Reading) -> Option<int> {
    match which {
        Reading::Elevation => match p.ele {
            Some(v) => Some(v as int),
            None => None,
        },
        Reading::Speed => match p.speed_kmh {
            Some(v) => Some(v as int),
            None => None,
        },
        Reading::HeartRate => match p.heart_rate {
            Some(v) => Some(v as int),
            None => None,
        },
        Reading::AirTemp => match p.air_temp {
            Some(v) => Some(v as int),
            None => None,
        },
    }
}

/// Index of the first point among `start..=end` whose reading is the least
/// of those that have one; none where no point has a reading.
pub open spec fn first_least(
    points: Seq<EnrichedTrackPoint>,
    which: Reading,
    start: int,
    end: int,
) -> Option<int>
    decreases end - start + 1,
{
    if end < start {
        None
    } else {
        let before = first_least(points, which, start, end - 1);
        match (before, reading(points[end], which)) {
            (Some(m), Some(v)) => if v < reading(points[m], which)->0 {
                Some(end)
            } else {
                Some(m)
            },
            (None, Some(_)) => Some(end),
            (_, None) => before,
        }
    }
}

/// Index of the first point among `start..=end` whose reading is the
/// greatest of those that have one; none where no point has a reading.
pub open spec fn first_greatest(
    points: Seq<EnrichedTrackPoint>,
    which: Reading,
    start: int,
    end: int,
) -> Option<int>
    decreases end - start + 1,
{
    if end < start {
        None
    } else {
        let before = first_greatest(points, which, start, end - 1);
        match (before, reading(points[end], which)) {
            (Some(m), Some(v)) => if v > reading(points[m], which)->0 {
                Some(end)
            } else {
                Some(m)
            },
            (None, Some(_)) => Some(end),
            (_, None) => before,
        }
    }
}

/// The point that `first_least` finds lies in the run and has a reading; no
/// point of the run has a lesser one, and every point before it that has a
/// reading has a greater one. It finds none only where no point of the run
/// has a reading.
pub proof fn lemma_first_least_is_least(
    points: Seq<EnrichedTrackPoint>,
    which: Reading,
    start: int,
    end: int,
)
    ensures
        first_least(points, which, start, end) matches Some(m) ==> start <= m <= end && reading(
            points[m],
            which,
        ) is Some && (forall|i: int|
            start <= i <= end && reading(#[trigger] points[i], which) is Some ==> reading(
                points[m],
                which,
            )->0 <= reading(points[i], which)->0) && (forall|i: int|
            start <= i < m && reading(#[trigger] points[i], which) is Some ==> reading(
                points[m],
                which,
            )->0 < reading(points[i], which)->0),
        first_least(points, which, start, end) is None ==> forall|i: int|
            start <= i <= end ==> reading(#[trigger] points[i], which) is None,
    decreases end - start + 1,
{
    if end >= start {
        lemma_first_least_is_least(points, which, start, end - 1);
    }
}

/// The point that `first_greatest` finds lies in the run and has a reading;
/// no point of the run has a greater one, and every point before it that has
/// a reading has a lesser one. It finds none only where no point of the run
/// has a reading.
pub proof fn lemma_first_greatest_is_greatest(
    points: Seq<EnrichedTrackPoint>,
    which: Reading,
    start: int,
    end: int,
)
    ensures
        first_greatest(points, which, start, end) matches Some(m) ==> start <= m <= end
            && reading(points[m], which) is Some && (forall|i: int|
            start <= i <= end && reading(#[trigger] points[i], which) is Some ==> reading(
                points[m],
                which,
            )->0 >= reading(points[i], which)->0) && (forall|i: int|
            start <= i < m && reading(#[trigger] points[i], which) is Some ==> reading(
                points[m],
                which,
            )->0 > reading(points[i], which)->0),
        first_greatest(points, which, start, end) is None ==> forall|i: int|
            start <= i <= end ==> reading(#[trigger] points[i], which) is None,
    decreases end - start + 1,
{
    if end >= start {
        lemma_first_greatest_is_greatest(points, which, start, end - 1);
    }
}

/// How many of the points `start..=end` have a reading.
pub open spec fn readings_count(
    points: Seq<EnrichedTrackPoint>,
    which: Reading,
    start: int,
    end: int,
) -> nat
    decreases end - start + 1,
{
    if end < start {
        0
    } else {
        readings_count(points, which, start, end - 1) + (if reading(points[end], which) is Some {
            1nat
        } else {
            0nat
        })
    }
}

/// The sum of the readings that the points `start..=end` have.
pub open spec fn readings_sum(
    points: Seq<EnrichedTrackPoint>,
    which: Reading,
    start: int,
    end: int,
) -> int
    decreases end - start + 1,
{
    if end < start {
        0
    } else {
        readings_sum(points, which, start, end - 1) + (match reading(points[end], which) {
            Some(v) => v,
            None => 0,
        })
    }
}

/// Every point among `start..=end` has a reading.
pub open spec fn all_read(
    points: Seq<EnrichedTrackPoint>,
    which: Reading,
    start: int,
    end: int,
) -> bool {
    forall|i: int| start <= i <= end ==> reading(#[trigger] points[i], which) is Some
}

/// `a / b` rounded towards zero.
pub open spec fn quotient_towards_zero(a: int, b: int) -> int {
    if a >= 0 {
        a / b
    } else {
        -((-a) / b)
    }
}

/// The point at an index that may be missing.
pub open spec fn point_at(points: Seq<EnrichedTrackPoint>, idx: Option<int>) -> Option<
    EnrichedTrackPoint,
> {
    match idx {
        Some(i) => Some(points[i]),
        None => None,
    }
}

/// The first lowest point of `start..=end`, or nothing where a point of the
/// run has no elevation: an extreme of part of a run would mislead.
pub open spec fn min_elevation_point(
    points: Seq<EnrichedTrackPoint>,
    start: int,
    end: int,
) -> Option<EnrichedTrackPoint> {
    if all_read(points, Reading::Elevation, start, end) {
        point_at(points, first_least(points, Reading::Elevation, start, end))
    } else {
        None
    }
}

/// The first highest point of `start..=end`, or nothing where a point of the
/// run has no elevation.
pub open spec fn max_elevation_point(
    points: Seq<EnrichedTrackPoint>,
    start: int,
    end: int,
) -> Option<EnrichedTrackPoint> {
    if all_read(points, Reading::Elevation, start, end) {
        point_at(points, first_greatest(points, Reading::Elevation, start, end))
    } else {
        None
    }
}

/// The first fastest point of `start..=end`, or nothing where a point of the
/// run has no speed.
pub open spec fn max_speed_point(points: Seq<EnrichedTrackPoint>, start: int, end: int) -> Option<
    EnrichedTrackPoint,
> {
    if all_read(points, Reading::Speed, start, end) {
        point_at(points, first_greatest(points, Reading::Speed, start, end))
    } else {
        None
    }
}

/// The first point of `start..=end` with the highest heart rate among those
/// that have one.
pub open spec fn max_heart_rate_point(
    points: Seq<EnrichedTrackPoint>,
    start: int,
    end: int,
) -> Option<EnrichedTrackPoint> {
    point_at(points, first_greatest(points, Reading::HeartRate, start, end))
}

/// The mean heart rate over the points of `start..=end` that have one, in
/// thousandths of a beat per minute and rounded down.
pub open spec fn mean_heart_rate(points: Seq<EnrichedTrackPoint>, start: int, end: int) -> Option<
    u64,
> {
    let count = readings_count(points, Reading::HeartRate, start, end);
    if count == 0 {
        None
    } else {
        Some((readings_sum(points, Reading::HeartRate, start, end) * 1000 / (count as int)) as u64)
    }
}

/// The first point of `start..=end` with the lowest air temperature among
/// those that have one.
pub open spec fn min_air_temp_point(
    points: Seq<EnrichedTrackPoint>,
    start: int,
    end: int,
) -> Option<EnrichedTrackPoint> {
    point_at(points, first_least(points, Reading::AirTemp, start, end))
}

/// The first point of `start..=end` with the highest air temperature among
/// those that have one.
pub open spec fn max_air_temp_point(
    points: Seq<EnrichedTrackPoint>,
    start: int,
    end: int,
) -> Option<EnrichedTrackPoint> {
    point_at(points, first_greatest(points, Reading::AirTemp, start, end))
}

/// The mean air temperature over the points of `start..=end` that have one,
/// rounded towards zero.
pub open spec fn mean_air_temp(points: Seq<EnrichedTrackPoint>, start: int, end: int) -> Option<
    i64,
> {
    let count = readings_count(points, Reading::AirTemp, start, end);
    if count == 0 {
        None
    } else {
        Some(
            quotient_towards_zero(
                readings_sum(points, Reading::AirTemp, start, end),
                count as int,
            ) as i64,
        )
    }
}

/// What one pass over a run of points finds of one reading.
struct Survey {
    least: Option<usize>,
    greatest: Option<usize>,
    count: usize,
    sum: i128,
}

/// The magnitude that no reading passes.
spec fn reading_bound(which: Reading) -> int {
    match which {
        Reading::HeartRate => 255,
        Reading::Speed => u64::MAX as int,
        _ => MAX_MAGNITUDE as int,
    }
}

/// The readings of which a stage shows the mean.
spec fn averaged(which: Reading) -> bool {
    which == Reading::HeartRate || which == Reading::AirTemp
}

/// The air temperatures of the points `start..=end` are of a magnitude that
/// can be added up.
pub open spec fn air_temps_in_range(points: Seq<EnrichedTrackPoint>, start: int, end: int) -> bool {
    forall|i: int|
        start <= i <= end ==> ((#[trigger] points[i]).air_temp matches Some(t)
            ==> crate::point::magnitude_in_range(t))
}

/// What point `p` shows for `which`, if anything.
fn read(p: &EnrichedTrackPoint, which: Reading) -> (v: Option<i128>)
    ensures
        reading(*p, which) matches Some(r) ==> v == Some(r as i128),
        reading(*p, which) is None ==> v is None,
{
    match which {
        Reading::Elevation => match p.ele {
            Some(v) => Some(v as i128),
            None => None,
        },
        Reading::Speed => match p.speed_kmh {
            Some(v) => Some(v as i128),
            None => None,
        },
        Reading::HeartRate => match p.heart_rate {
            Some(v) => Some(v as i128),
            None => None,
        },
        Reading::AirTemp => match p.air_temp {
            Some(v) => Some(v as i128),
            None => None,
        },
    }
}

/// Passes once over the points `start..=end` and notes where the reading is
/// least and greatest, how many points have it and what they add up to.
fn survey(points: &Vec<EnrichedTrackPoint>, which: Reading, start: usize, end: usize) -> (s:
    Survey)
    requires
        start <= end < points@.len(),
        which == Reading::AirTemp ==> air_temps_in_range(points@, start as int, end as int),
    ensures
        s.least matches Some(i) ==> first_least(points@, which, start as int, end as int)
            == Some(i as int),
        s.least is None ==> first_least(points@, which, start as int, end as int) is None,
        s.greatest matches Some(i) ==> first_greatest(points@, which, start as int, end as int)
            == Some(i as int),
        s.greatest is None ==> first_greatest(points@, which, start as int, end as int) is None,
        s.least matches Some(i) ==> start <= i <= end && reading(points@[i as int], which)
            is Some,
        s.greatest matches Some(i) ==> start <= i <= end && reading(points@[i as int], which)
            is Some,
        s.count == readings_count(points@, which, start as int, end as int),
        averaged(which) ==> s.sum == readings_sum(points@, which, start as int, end as int),
        s.count == end - start + 1 <==> all_read(points@, which, start as int, end as int),
        s.count == 0 <==> s.least is None,
        s.count == 0 <==> s.greatest is None,
        averaged(which) ==> -reading_bound(which) * s.count <= s.sum <= reading_bound(which)
            * s.count,
        which == Reading::HeartRate ==> s.sum >= 0,
{
    let n: usize = points.len();
    let mut least: Option<(usize, i128)> = None;
    let mut greatest: Option<(usize, i128)> = None;
    let mut count: usize = 0;
    let mut sum: i128 = 0;
    let mut i: usize = start;
    while i <= end
        invariant
            start <= i <= end + 1,
            end < points@.len(),
            which == Reading::AirTemp ==> air_temps_in_range(points@, start as int, end as int),
            least matches Some((m, v)) ==> first_least(points@, which, start as int, i - 1)
                == Some(m as int) && start <= m < i && reading(points@[m as int], which) == Some(
                v as int,
            ),
            least is None ==> first_least(points@, which, start as int, i - 1) is None,
            greatest matches Some((m, v)) ==> first_greatest(points@, which, start as int, i - 1)
                == Some(m as int) && start <= m < i && reading(points@[m as int], which) == Some(
                v as int,
            ),
            greatest is None ==> first_greatest(points@, which, start as int, i - 1) is None,
            count == readings_count(points@, which, start as int, i - 1),
            count <= i - start,
            averaged(which) ==> sum == readings_sum(points@, which, start as int, i - 1),
            count == i - start <==> all_read(points@, which, start as int, i - 1),
            count == 0 <==> least is None,
            count == 0 <==> greatest is None,
            averaged(which) ==> -reading_bound(which) * count <= sum <= reading_bound(which)
                * count,
            which == Reading::HeartRate ==> sum >= 0,
            n == points@.len(),
        decreases end + 1 - i,
    {
        proof {
            if averaged(which) {
                assert(reading(points@[i as int], which) matches Some(v) ==> -reading_bound(which)
                    <= v <= reading_bound(which));
                let b = reading_bound(which);
                let c = count as int;
                assert(b * (c + 1) == b * c + b) by (nonlinear_arith);
                assert((-b) * (c + 1) == (-b) * c - b) by (nonlinear_arith);
                assert(b * c <= MAX_MAGNITUDE * usize::MAX && (-b) * c >= -(MAX_MAGNITUDE
                    * usize::MAX)) by (nonlinear_arith)
                    requires
                        0 <= b <= MAX_MAGNITUDE,
                        0 <= c <= usize::MAX,
                ;
            }
        }
        match read(&points[i], which) {
            Some(v) => {
                least = match least {
                    Some((m, lv)) => if v < lv {
                        Some((i, v))
                    } else {
                        Some((m, lv))
                    },
                    None => Some((i, v)),
                };
                greatest = match greatest {
                    Some((m, gv)) => if v > gv {
                        Some((i, v))
                    } else {
                        Some((m, gv))
                    },
                    None => Some((i, v)),
                };
                count = count + 1;
                if which == Reading::HeartRate || which == Reading::AirTemp {
                    sum = sum + v;
                }
            },
            None => {},
        }
        proof {
            let ghost_end = i as int;
            if all_read(points@, which, start as int, ghost_end) {
                assert(reading(points@[ghost_end], which) is Some);
                assert forall|j: int| start <= j <= ghost_end - 1 implies reading(
                    #[trigger] points@[j],
                    which,
                ) is Some by {}
            }
        }
        i = i + 1;
    }
    Survey {
        least: match least {
            Some((m, _)) => Some(m),
            None => None,
        },
        greatest: match greatest {
            Some((m, _)) => Some(m),
            None => None,
        },
        count,
        sum,
    }
}

/// The point at an index that may be missing.
fn pick(points: &Vec<EnrichedTrackPoint>, idx: Option<usize>) -> (p: Option<EnrichedTrackPoint>)
    requires
        idx matches Some(i) ==> i < points@.len(),
    ensures
        idx matches Some(i) ==> p == Some(points@[i as int]),
        idx is None ==> p is None,
{
    match idx {
        Some(i) => Some(points[i]),
        None => None,
    }
}

/// Within a given range of trackpoints, finds the ones with the minimum and
/// maximum elevation. Any missing elevation invalidates the calculation.
pub fn find_min_and_max_elevation_points(gpx: &EnrichedGpx, start_idx: usize, end_idx: usize) -> (r:
    (Option<EnrichedTrackPoint>, Option<EnrichedTrackPoint>))
    requires
        start_idx <= end_idx < gpx.points@.len(),
    ensures
        r.0 == min_elevation_point(gpx.points@, start_idx as int, end_idx as int),
        r.1 == max_elevation_point(gpx.points@, start_idx as int, end_idx as int),
        r.0 is Some <==> r.1 is Some,
        r.0 is Some <==> all_read(
            gpx.points@,
            Reading::Elevation,
            start_idx as int,
            end_idx as int,
        ),
{
    let n: usize = gpx.points.len();
    let found: Survey = survey(&gpx.points, Reading::Elevation, start_idx, end_idx);
    if found.count == end_idx - start_idx + 1 {
        (pick(&gpx.points, found.least), pick(&gpx.points, found.greatest))
    } else {
        (None, None)
    }
}

/// Within a given range of trackpoints, finds the one with the maximum
/// speed. Any missing speed invalidates the calculation.
pub fn find_max_speed(gpx: &EnrichedGpx, start_idx: usize, end_idx: usize) -> (r: Option<
    EnrichedTrackPoint,
>)
    requires
        start_idx <= end_idx < gpx.points@.len(),
    ensures
        r == max_speed_point(gpx.points@, start_idx as int, end_idx as int),
        r is Some <==> all_read(gpx.points@, Reading::Speed, start_idx as int, end_idx as int),
{
    let n: usize = gpx.points.len();
    let found: Survey = survey(&gpx.points, Reading::Speed, start_idx, end_idx);
    if found.count == end_idx - start_idx + 1 {
        pick(&gpx.points, found.greatest)
    } else {
        None
    }
}

/// Within a given range of trackpoints, finds the point of maximum heart
/// rate and the average heart rate, both over the points that have one.
pub fn find_heart_rates(gpx: &EnrichedGpx, start_idx: usize, end_idx: usize) -> (r: (
    Option<EnrichedTrackPoint>,
    Option<u64>,
))
    requires
        start_idx <= end_idx < gpx.points@.len(),
    ensures
        r.0 == max_heart_rate_point(gpx.points@, start_idx as int, end_idx as int),
        r.1 == mean_heart_rate(gpx.points@, start_idx as int, end_idx as int),
        r.0 is Some <==> r.1 is Some,
{
    let found: Survey = survey(&gpx.points, Reading::HeartRate, start_idx, end_idx);
    let max: Option<EnrichedTrackPoint> = pick(&gpx.points, found.greatest);
    if found.count == 0 {
        (max, None)
    } else {
        proof {
            let sum = found.sum as int;
            let count = found.count as int;
            assert(0 <= sum * 1000 / count <= 255000) by (nonlinear_arith)
                requires
                    0 <= sum <= 255 * count,
                    count > 0,
            ;
        }
        let scaled: u128 = (found.sum as u128) * 1000;
        let mean: u128 = scaled / (found.count as u128);
        (max, Some(mean as u64))
    }
}

/// Finds the points of minimum and maximum air temperature and the average
/// air temperature over the stage, all over the points that have one.
pub fn find_air_temps(gpx: &EnrichedGpx, start_idx: usize, end_idx: usize) -> (r: (
    Option<EnrichedTrackPoint>,
    Option<EnrichedTrackPoint>,
    Option<i64>,
))
    requires
        start_idx <= end_idx < gpx.points@.len(),
        air_temps_in_range(gpx.points@, start_idx as int, end_idx as int),
    ensures
        r.0 == min_air_temp_point(gpx.points@, start_idx as int, end_idx as int),
        r.1 == max_air_temp_point(gpx.points@, start_idx as int, end_idx as int),
        r.2 == mean_air_temp(gpx.points@, start_idx as int, end_idx as int),
        r.0 is Some <==> r.2 is Some,
        r.1 is Some <==> r.2 is Some,
{
    let found: Survey = survey(&gpx.points, Reading::AirTemp, start_idx, end_idx);
    let min: Option<EnrichedTrackPoint> = pick(&gpx.points, found.least);
    let max: Option<EnrichedTrackPoint> = pick(&gpx.points, found.greatest);
    if found.count == 0 {
        (min, max, None)
    } else {
        let count: u128 = found.count as u128;
        proof {
            let sum = found.sum as int;
            let c = found.count as int;
            let b = MAX_MAGNITUDE as int;
            assert((-b) * c == -(b * c)) by (nonlinear_arith);
            assert(b * c <= b * usize::MAX) by (nonlinear_arith)
                requires
                    0 <= b,
                    0 <= c <= usize::MAX,
            ;
            if sum >= 0 {
                assert(0 <= sum / c <= b) by (nonlinear_arith)
                    requires
                        0 <= sum <= b * c,
                        c > 0,
                ;
            } else {
                assert(0 <= (-sum) / c <= b) by (nonlinear_arith)
                    requires
                        0 <= -sum <= b * c,
                        c > 0,
                ;
            }
        }
        let mean: i64 = if found.sum >= 0 {
            ((found.sum as u128) / count) as i64
        } else {
            -((((-found.sum) as u128) / count) as i64)
        };
        (min, max, Some(mean))
    }
}

} // verus!
