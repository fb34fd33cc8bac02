//! Stages: the moving and stationary stretches that a track is split into,
//! and what can be read off one of them.

use vstd::prelude::*;
use vstd::string::StringExecFns;
use std::collections::HashSet;
use crate::enrich::{saturating_sum, spec_speed_kmh_from_duration, speed_kmh_from_duration};
use crate::extrema::quotient_towards_zero;
use crate::model::text_of;
use crate::point::{checked_difference, difference, EnrichedTrackPoint, Position};

verus! {

/// These are the parameters that control the stage-finding algorithm.
#[derive(Clone, Copy, Debug, PartialEq, Eq, Structural)]
pub struct StageDetectionParameters {
    /// You are considered stopped if your speed drops to this or below, in
    /// thousandths of a km/h.
    pub stopped_speed_kmh: u64,
    /// You are considered to be moving again when you have moved more than
    /// this far from where you first stopped, in thousandths of a metre.
    pub min_metres_to_resume: u64,
    /// A stop shorter than this is noise and does not end a moving stage, in
    /// thousandths of a second.
    pub min_duration_seconds: u64,
}

/// The type of a stage.
#[derive(Debug, PartialEq, Eq, Copy, Clone, Structural)]
pub enum StageType {
    Moving,
    Control,
}

impl StageType {
    /// The other type.
    pub open spec fn toggled(self) -> StageType {
        match self {
            StageType::Moving => StageType::Control,
            StageType::Control => StageType::Moving,
        }
    }

    /// The other type.
    pub fn toggle(self) -> (other: StageType)
        ensures
            other == self.toggled(),
            other != self,
    {
        match self {
            StageType::Moving => StageType::Control,
            StageType::Control => StageType::Moving,
        }
    }

    /// The name of the type.
    pub fn as_str(&self) -> (name: &'static str)
        ensures
            name@ == (match *self {
                StageType::Moving => "Moving"@,
                StageType::Control => "Control"@,
            }),
    {
        match self {
            StageType::Moving => "Moving",
            StageType::Control => "Control",
        }
    }
}

/// Represents a stage of a track. The stage can represent you moving, or
/// stopped at a control.
#[derive(Debug, Clone, Copy)]
pub struct Stage {
    pub stage_type: StageType,
    /// The first point of the entire track, kept for the running totals.
    pub track_start_point: EnrichedTrackPoint,
    pub start: EnrichedTrackPoint,
    pub end: EnrichedTrackPoint,
    pub min_elevation: Option<EnrichedTrackPoint>,
    pub max_elevation: Option<EnrichedTrackPoint>,
    pub max_speed: Option<EnrichedTrackPoint>,
    /// In thousandths of a beat per minute.
    pub avg_heart_rate: Option<u64>,
    pub max_heart_rate: Option<EnrichedTrackPoint>,
    /// In thousandths of a degree Celsius.
    pub avg_air_temp: Option<i64>,
    pub min_air_temp: Option<EnrichedTrackPoint>,
    pub max_air_temp: Option<EnrichedTrackPoint>,
}

/// The larger minus the smaller of two running totals, or nothing where one
/// of them is unknown.
pub open spec fn gain(later: Option<u64>, earlier: Option<u64>) -> Option<u64> {
    match (later, earlier) {
        (Some(l), Some(e)) => Some(
            if l >= e {
                (l - e) as u64
            } else {
                0
            },
        ),
        _ => None,
    }
}

/// `metres` per kilometre of `distance_km`, rounded down; nothing over no
/// distance, and held at `u64::MAX`.
pub open spec fn rate_per_km(metres: Option<u64>, distance_km: u64) -> Option<u64> {
    match metres {
        Some(m) => if distance_km == 0 {
            None
        } else if m * 1000 / (distance_km as int) > u64::MAX {
            Some(u64::MAX)
        } else {
            Some((m * 1000 / (distance_km as int)) as u64)
        },
        None => None,
    }
}

impl Stage {
    /// The time the stage took: from the beginning of the leg into its first
    /// point to its last point.
    pub open spec fn spec_duration(&self) -> Option<i64> {
        checked_difference(self.end.time, self.start.spec_start_time())
    }

    /// The time from the beginning of the track to the end of the stage.
    pub open spec fn spec_running_duration(&self) -> Option<i64> {
        checked_difference(self.end.time, self.track_start_point.spec_start_time())
    }

    /// The length of the stage: how far its end lies beyond its start along
    /// the track.
    pub open spec fn spec_distance_metres(&self) -> u64 {
        if self.end.running_metres >= self.start.running_metres {
            (self.end.running_metres - self.start.running_metres) as u64
        } else {
            0
        }
    }

    /// The length of the stage in km.
    pub open spec fn spec_distance_km(&self) -> u64 {
        self.spec_distance_metres() / 1000
    }

    /// The average speed over the stage.
    pub open spec fn spec_average_speed_kmh(&self) -> Option<u64> {
        match self.spec_duration() {
            Some(d) => spec_speed_kmh_from_duration(self.spec_distance_metres(), d),
            None => None,
        }
    }

    /// The average speed from the start of the track to the end of the stage.
    pub open spec fn spec_running_average_speed_kmh(&self) -> Option<u64> {
        match self.spec_running_duration() {
            Some(d) => spec_speed_kmh_from_duration(self.end.running_metres, d),
            None => None,
        }
    }

    /// The climb over the stage.
    pub open spec fn spec_ascent_metres(&self) -> Option<u64> {
        gain(self.end.running_ascent_metres, self.start.running_ascent_metres)
    }

    /// The drop over the stage.
    pub open spec fn spec_descent_metres(&self) -> Option<u64> {
        gain(self.end.running_descent_metres, self.start.running_descent_metres)
    }

    /// Returns the duration of the stage. It runs from the time the leg into
    /// the first point began, not from when that point was recorded: a point
    /// written after a long halt carries the whole halt.
    pub fn duration(&self) -> (d: Option<i64>)
        ensures
            d == self.spec_duration(),
    {
        difference(self.end.time, self.start.start_time())
    }

    /// Returns the running duration to the end of the stage from the first
    /// point in the track.
    pub fn running_duration(&self) -> (d: Option<i64>)
        ensures
            d == self.spec_running_duration(),
    {
        difference(self.end.time, self.track_start_point.start_time())
    }

    /// Returns the distance (length) of the stage, in metres.
    pub fn distance_metres(&self) -> (m: u64)
        ensures
            m == self.spec_distance_metres(),
    {
        self.end.running_metres.saturating_sub(self.start.running_metres)
    }

    /// Returns the distance of the stage, in km.
    pub fn distance_km(&self) -> (km: u64)
        ensures
            km == self.spec_distance_km(),
    {
        self.distance_metres() / 1000
    }

    /// Returns the cumulative distance to the end of the stage from the start
    /// of the entire track, in km.
    pub fn running_distance_km(&self) -> (km: u64)
        ensures
            km == self.end.running_metres / 1000,
    {
        self.end.running_metres / 1000
    }

    /// Returns the average speed of the stage, in km/h.
    pub fn average_speed_kmh(&self) -> (speed: Option<u64>)
        ensures
            speed == self.spec_average_speed_kmh(),
    {
        match self.duration() {
            Some(d) => speed_kmh_from_duration(self.distance_metres(), d),
            None => None,
        }
    }

    /// Returns the average speed, calculated over the distance from the start
    /// of the track to the end of the stage.
    pub fn running_average_speed_kmh(&self) -> (speed: Option<u64>)
        ensures
            speed == self.spec_running_average_speed_kmh(),
    {
        match self.running_duration() {
            Some(d) => speed_kmh_from_duration(self.end.running_metres, d),
            None => None,
        }
    }

    /// Returns the total ascent in metres over the stage.
    pub fn ascent_metres(&self) -> (m: Option<u64>)
        ensures
            m == self.spec_ascent_metres(),
    {
        gained(self.end.running_ascent_metres, self.start.running_ascent_metres)
    }

    /// Returns the total ascent to the end of the stage from the beginning of
    /// the track.
    pub fn running_ascent_metres(&self) -> (m: Option<u64>)
        ensures
            m == self.end.running_ascent_metres,
    {
        self.end.running_ascent_metres
    }

    /// Returns the ascent rate in m/km over the stage.
    pub fn ascent_rate_per_km(&self) -> (rate: Option<u64>)
        ensures
            rate == rate_per_km(self.spec_ascent_metres(), self.spec_distance_km()),
    {
        rate(self.ascent_metres(), self.distance_km())
    }

    /// Returns the total descent in metres over the stage.
    pub fn descent_metres(&self) -> (m: Option<u64>)
        ensures
            m == self.spec_descent_metres(),
    {
        gained(self.end.running_descent_metres, self.start.running_descent_metres)
    }

    /// Returns the total descent to the end of the stage from the beginning
    /// of the track.
    pub fn running_descent_metres(&self) -> (m: Option<u64>)
        ensures
            m == self.end.running_descent_metres,
    {
        self.end.running_descent_metres
    }

    /// Returns the descent rate in m/km over the stage.
    pub fn descent_rate_per_km(&self) -> (rate: Option<u64>)
        ensures
            rate == rate_per_km(self.spec_descent_metres(), self.spec_distance_km()),
    {
        rate(self.descent_metres(), self.distance_km())
    }
}

/// How far one running total lies beyond an earlier one.
fn gained(later: Option<u64>, earlier: Option<u64>) -> (g: Option<u64>)
    ensures
        g == gain(later, earlier),
{
    match (later, earlier) {
        (Some(l), Some(e)) => Some(l.saturating_sub(e)),
        _ => None,
    }
}

/// Metres per kilometre.
fn rate(metres: Option<u64>, distance_km: u64) -> (r: Option<u64>)
    ensures
        r == rate_per_km(metres, distance_km),
{
    match metres {
        Some(m) => {
            if distance_km == 0 {
                None
            } else {
                let quotient: u128 = (m as u128) * 1000 / (distance_km as u128);
                if quotient > u64::MAX as u128 {
                    Some(u64::MAX)
                } else {
                    Some(quotient as u64)
                }
            }
        },
        None => None,
    }
}

/// The stages of one track, in track order.
#[derive(Debug)]
pub struct StageList {
    stages: Vec<Stage>,
}

impl View for StageList {
    type V = Seq<Stage>;

    closed spec fn view(&self) -> Seq<Stage> {
        self.stages@
    }
}

impl Default for StageList {
    fn default() -> (list: Self)
        ensures
            list@ == Seq::<Stage>::empty(),
    {
        StageList { stages: Vec::new() }
    }
}

impl StageList {
    /// A list of no stages.
    pub fn new() -> (list: Self)
        ensures
            list@ == Seq::<Stage>::empty(),
    {
        StageList { stages: Vec::new() }
    }

    /// Adds another stage to the end of the list.
    pub fn push(&mut self, stage: Stage)
        ensures
            final(self)@ == old(self)@.push(stage),
    {
        self.stages.push(stage);
    }

    /// Returns the number of stages.
    pub fn len(&self) -> (n: usize)
        ensures
            n == self@.len(),
    {
        self.stages.len()
    }

    /// Returns true if there are no stages.
    pub fn is_empty(&self) -> (b: bool)
        ensures
            b == (self@.len() == 0),
    {
        self.stages.len() == 0
    }

    /// The stage at `index`.
    pub fn get(&self, index: usize) -> (stage: &Stage)
        requires
            index < self@.len(),
        ensures
            *stage == self@[index as int],
    {
        &self.stages[index]
    }

    /// Returns the first point in the first stage.
    pub fn first_point(&self) -> (p: &EnrichedTrackPoint)
        requires
            self@.len() > 0,
        ensures
            *p == self@[0].start,
    {
        &self.stages[0].start
    }

    /// Returns the last point in the last stage.
    pub fn last_point(&self) -> (p: &EnrichedTrackPoint)
        requires
            self@.len() > 0,
        ensures
            *p == self@[self@.len() - 1].end,
    {
        &self.stages[self.stages.len() - 1].end
    }
}

/// The extremes that a list of stages is asked for.
#[derive(Clone, Copy, Debug, PartialEq, Eq, Structural)]
pub enum Extreme {
    MinElevation,
    MaxElevation,
    MaxSpeed,
    MaxHeartRate,
    MinTemperature,
    MaxTemperature,
}

/// The point that `stage` holds as its own extreme of the kind `which`.
pub open spec fn extreme_point(stage: Stage, which: Extreme) -> Option<EnrichedTrackPoint> {
    match which {
        Extreme::MinElevation => stage.min_elevation,
        Extreme::MaxElevation => stage.max_elevation,
        Extreme::MaxSpeed => stage.max_speed,
        Extreme::MaxHeartRate => stage.max_heart_rate,
        Extreme::MinTemperature => stage.min_air_temp,
        Extreme::MaxTemperature => stage.max_air_temp,
    }
}

/// The value by which point `p` is ranked for `which`. A point without the
/// reading ranks below every point that has it.
pub open spec fn rank(p: EnrichedTrackPoint, which: Extreme) -> int {
    match which {
        Extreme::MinElevation | Extreme::MaxElevation => match p.ele {
            Some(v) => v as int,
            None => i64::MIN - 1,
        },
        Extreme::MaxSpeed => match p.speed_kmh {
            Some(v) => v as int,
            None => -1,
        },
        Extreme::MaxHeartRate => match p.heart_rate {
            Some(v) => v as int,
            None => -1,
        },
        Extreme::MinTemperature | Extreme::MaxTemperature => match p.air_temp {
            Some(v) => v as int,
            None => i64::MIN - 1,
        },
    }
}

/// Does a stage whose extreme ranks `new` take the place of an earlier stage
/// whose extreme ranks `held`? For the lowest elevation, the highest
/// elevation, the highest speed and the lowest temperature the first of
/// equals stays; for the highest heart rate and the highest temperature the
/// last of equals comes.
pub open spec fn displaces(which: Extreme, new: int, held: int) -> bool {
    match which {
        Extreme::MinElevation | Extreme::MinTemperature => new < held,
        Extreme::MaxElevation | Extreme::MaxSpeed => new > held,
        Extreme::MaxHeartRate | Extreme::MaxTemperature => new >= held,
    }
}

/// Index of the stage among the first `n` whose extreme of the kind `which`
/// is the extreme of them all, or none where no stage has one.
pub open spec fn extreme_stage(stages: Seq<Stage>, which: Extreme, n: int) -> Option<int>
    decreases n,
{
    if n <= 0 {
        None
    } else {
        let before = extreme_stage(stages, which, n - 1);
        match (before, extreme_point(stages[n - 1], which)) {
            (Some(b), Some(p)) => if displaces(
                which,
                rank(p, which),
                rank(extreme_point(stages[b], which)->0, which),
            ) {
                Some(n - 1)
            } else {
                Some(b)
            },
            (None, Some(_)) => Some(n - 1),
            (_, None) => before,
        }
    }
}

/// Is the rank `a` at least as good as the rank `b` for the extreme `which`:
/// no greater for a lowest, no less for a highest?
pub open spec fn as_good(which: Extreme, a: int, b: int) -> bool {
    match which {
        Extreme::MinElevation | Extreme::MinTemperature => a <= b,
        _ => a >= b,
    }
}

/// The extreme of a list is the extreme of one of its stages, and no stage
/// has a better one: the stage that `extreme_stage` finds among the first
/// `n` holds an extreme that is as good as that of any of them. It finds
/// none only where none of them holds an extreme.
pub proof fn lemma_list_extreme_is_extreme(stages: Seq<Stage>, which: Extreme, n: int)
    requires
        n <= stages.len(),
    ensures
        extreme_stage(stages, which, n) matches Some(b) ==> 0 <= b < n && extreme_point(
            stages[b],
            which,
        ) is Some && (forall|i: int|
            0 <= i < n && extreme_point(#[trigger] stages[i], which) is Some ==> as_good(
                which,
                rank(extreme_point(stages[b], which)->0, which),
                rank(extreme_point(stages[i], which)->0, which),
            )),
        extreme_stage(stages, which, n) is None ==> forall|i: int|
            0 <= i < n ==> extreme_point(#[trigger] stages[i], which) is None,
    decreases n,
{
    if n > 0 {
        lemma_list_extreme_is_extreme(stages, which, n - 1);
    }
}

/// The extreme of the kind `which` over all the stages.
pub open spec fn extreme_of(stages: Seq<Stage>, which: Extreme) -> Option<EnrichedTrackPoint> {
    match extreme_stage(stages, which, stages.len() as int) {
        Some(i) => extreme_point(stages[i], which),
        None => None,
    }
}

/// The lengths of the first `n` stages added up, held at `u64::MAX`.
pub open spec fn summed_distance(stages: Seq<Stage>, n: int) -> u64
    decreases n,
{
    if n <= 0 {
        0
    } else {
        saturating_sum(summed_distance(stages, n - 1), stages[n - 1].spec_distance_metres())
    }
}

/// Two running amounts added, where both are known.
pub open spec fn add_known(total: Option<u64>, part: Option<u64>) -> Option<u64> {
    match (total, part) {
        (Some(t), Some(p)) => Some(saturating_sum(t, p)),
        _ => None,
    }
}

/// The ascents of the first `n` stages added up; nothing where one of them
/// is unknown.
pub open spec fn summed_ascent(stages: Seq<Stage>, n: int) -> Option<u64>
    decreases n,
{
    if n <= 0 {
        Some(0)
    } else {
        add_known(summed_ascent(stages, n - 1), stages[n - 1].spec_ascent_metres())
    }
}

/// The descents of the first `n` stages added up; nothing where one of them
/// is unknown.
pub open spec fn summed_descent(stages: Seq<Stage>, n: int) -> Option<u64>
    decreases n,
{
    if n <= 0 {
        Some(0)
    } else {
        add_known(summed_descent(stages, n - 1), stages[n - 1].spec_descent_metres())
    }
}

/// `total + part` where both are known and the sum fits in `i64`.
pub open spec fn checked_sum(total: Option<i64>, part: Option<i64>) -> Option<i64> {
    match (total, part) {
        (Some(t), Some(p)) => if i64::MIN <= t + p <= i64::MAX {
            Some((t + p) as i64)
        } else {
            None
        },
        _ => None,
    }
}

/// The durations of the controls among the first `n` stages added up;
/// nothing where one of them is unknown.
pub open spec fn summed_control_time(stages: Seq<Stage>, n: int) -> Option<i64>
    decreases n,
{
    if n <= 0 {
        Some(0)
    } else if stages[n - 1].stage_type == StageType::Moving {
        summed_control_time(stages, n - 1)
    } else {
        checked_sum(summed_control_time(stages, n - 1), stages[n - 1].spec_duration())
    }
}

/// `part` as a share of `whole`, in thousandths and rounded towards zero;
/// nothing unless `whole` is positive, or where the share does not fit.
pub open spec fn share(part: Option<i64>, whole: Option<i64>) -> Option<i64> {
    match (part, whole) {
        (Some(p), Some(w)) => if w > 0 && i64::MIN <= quotient_towards_zero(p * 1000, w as int)
            <= i64::MAX {
            Some(quotient_towards_zero(p * 1000, w as int) as i64)
        } else {
            None
        },
        _ => None,
    }
}

impl StageList {
    /// The time the leg into the first point of the first stage began.
    pub open spec fn spec_start_time(&self) -> Option<i64> {
        self@[0].start.spec_start_time()
    }

    /// The time of the last point of the last stage.
    pub open spec fn spec_end_time(&self) -> Option<i64> {
        self@[self@.len() - 1].end.time
    }

    /// The time from the start of the first stage to the end of the last.
    pub open spec fn spec_duration(&self) -> Option<i64> {
        checked_difference(self.spec_end_time(), self.spec_start_time())
    }

    /// The time spent at controls.
    pub open spec fn spec_total_control_time(&self) -> Option<i64> {
        summed_control_time(self@, self@.len() as int)
    }

    /// The time spent moving: all of the time but that spent at controls.
    pub open spec fn spec_total_moving_time(&self) -> Option<i64> {
        checked_difference(self.spec_duration(), self.spec_total_control_time())
    }

    /// The length of all the stages together.
    pub open spec fn spec_distance_metres(&self) -> u64 {
        summed_distance(self@, self@.len() as int)
    }

    /// Returns the start time of the first stage.
    pub fn start_time(&self) -> (t: Option<i64>)
        requires
            self@.len() > 0,
        ensures
            t == self.spec_start_time(),
    {
        self.first_point().start_time()
    }

    /// Returns the end time of the last stage.
    pub fn end_time(&self) -> (t: Option<i64>)
        requires
            self@.len() > 0,
        ensures
            t == self.spec_end_time(),
    {
        self.last_point().time
    }

    /// Returns the total duration between the start of the first stage and
    /// the end of the last stage.
    pub fn duration(&self) -> (d: Option<i64>)
        requires
            self@.len() > 0,
        ensures
            d == self.spec_duration(),
    {
        difference(self.end_time(), self.start_time())
    }

    /// Returns the total time spent at controls across all the stages.
    pub fn total_control_time(&self) -> (t: Option<i64>)
        ensures
            t == self.spec_total_control_time(),
    {
        let n: usize = self.stages.len();
        let mut total: Option<i64> = Some(0);
        let mut i: usize = 0;
        while i < n
            invariant
                n == self.stages@.len(),
                i <= n,
                total == summed_control_time(self.stages@, i as int),
            decreases n - i,
        {
            let stage: &Stage = &self.stages[i];
            match stage.stage_type {
                StageType::Moving => {},
                StageType::Control => {
                    total = match (total, stage.duration()) {
                        (Some(t), Some(d)) => t.checked_add(d),
                        _ => None,
                    };
                },
            }
            i += 1;
        }
        total
    }

    /// Returns the total time moving across all the stages.
    pub fn total_moving_time(&self) -> (t: Option<i64>)
        requires
            self@.len() > 0,
        ensures
            t == self.spec_total_moving_time(),
    {
        difference(self.duration(), self.total_control_time())
    }

    /// Returns the total distance of all the stages in metres.
    pub fn distance_metres(&self) -> (m: u64)
        ensures
            m == self.spec_distance_metres(),
    {
        let n: usize = self.stages.len();
        let mut total: u64 = 0;
        let mut i: usize = 0;
        while i < n
            invariant
                n == self.stages@.len(),
                i <= n,
                total == summed_distance(self.stages@, i as int),
            decreases n - i,
        {
            total = total.saturating_add(self.stages[i].distance_metres());
            i += 1;
        }
        total
    }

    /// Returns the total distance of all the stages in km.
    pub fn distance_km(&self) -> (km: u64)
        ensures
            km == self.spec_distance_metres() / 1000,
    {
        self.distance_metres() / 1000
    }

    /// Returns the average moving speed over the whole track; this leaves
    /// out the time spent at controls.
    pub fn average_moving_speed(&self) -> (speed: Option<u64>)
        requires
            self@.len() > 0,
        ensures
            speed == (match self.spec_total_moving_time() {
                Some(t) => spec_speed_kmh_from_duration(self.spec_distance_metres(), t),
                None => None,
            }),
    {
        match self.total_moving_time() {
            Some(t) => speed_kmh_from_duration(self.distance_metres(), t),
            None => None,
        }
    }

    /// Returns the overall average speed over the whole track; this takes in
    /// the time spent at controls.
    pub fn average_overall_speed(&self) -> (speed: Option<u64>)
        requires
            self@.len() > 0,
        ensures
            speed == (match self.spec_duration() {
                Some(t) => spec_speed_kmh_from_duration(self.spec_distance_metres(), t),
                None => None,
            }),
    {
        match self.duration() {
            Some(t) => speed_kmh_from_duration(self.distance_metres(), t),
            None => None,
        }
    }

    /// Returns the total ascent in metres across all the stages.
    pub fn total_ascent_metres(&self) -> (m: Option<u64>)
        ensures
            m == summed_ascent(self@, self@.len() as int),
    {
        let n: usize = self.stages.len();
        let mut total: Option<u64> = Some(0);
        let mut i: usize = 0;
        while i < n
            invariant
                n == self.stages@.len(),
                i <= n,
                total == summed_ascent(self.stages@, i as int),
            decreases n - i,
        {
            total = match (total, self.stages[i].ascent_metres()) {
                (Some(t), Some(a)) => Some(t.saturating_add(a)),
                _ => None,
            };
            i += 1;
        }
        total
    }

    /// Returns the total descent in metres across all the stages.
    pub fn total_descent_metres(&self) -> (m: Option<u64>)
        ensures
            m == summed_descent(self@, self@.len() as int),
    {
        let n: usize = self.stages.len();
        let mut total: Option<u64> = Some(0);
        let mut i: usize = 0;
        while i < n
            invariant
                n == self.stages@.len(),
                i <= n,
                total == summed_descent(self.stages@, i as int),
            decreases n - i,
        {
            total = match (total, self.stages[i].descent_metres()) {
                (Some(t), Some(d)) => Some(t.saturating_add(d)),
                _ => None,
            };
            i += 1;
        }
        total
    }

    /// Finds the extreme of the kind `which` over all the stages by comparing
    /// the extremes that the stages hold: an extreme of the whole is the
    /// extreme of one of its stages.
    fn extreme(&self, which: Extreme) -> (found: Option<&EnrichedTrackPoint>)
        ensures
            found matches Some(p) ==> extreme_of(self@, which) == Some(*p),
            found is None ==> extreme_of(self@, which) is None,
    {
        let n: usize = self.stages.len();
        let mut best: Option<(usize, i128)> = None;
        let mut i: usize = 0;
        while i < n
            invariant
                n == self.stages@.len(),
                i <= n,
                best is None ==> extreme_stage(self.stages@, which, i as int) is None,
                best matches Some((b, r)) ==> extreme_stage(self.stages@, which, i as int) == Some(
                    b as int,
                ) && b < i && extreme_point(self.stages@[b as int], which) is Some && r == rank(
                    extreme_point(self.stages@[b as int], which)->0,
                    which,
                ),
            decreases n - i,
        {
            match held(&self.stages[i], which) {
                Some(p) => {
                    let r: i128 = ranked(p, which);
                    best = match best {
                        Some((b, held_rank)) => if beats(which, r, held_rank) {
                            Some((i, r))
                        } else {
                            Some((b, held_rank))
                        },
                        None => Some((i, r)),
                    };
                },
                None => {},
            }
            i += 1;
        }
        match best {
            Some((b, _)) => held(&self.stages[b], which),
            None => None,
        }
    }

    /// Returns the point of minimum elevation across all the stages.
    pub fn min_elevation(&self) -> (found: Option<&EnrichedTrackPoint>)
        requires
            self@.len() > 0,
        ensures
            found matches Some(p) ==> extreme_of(self@, Extreme::MinElevation) == Some(*p),
            found is None ==> extreme_of(self@, Extreme::MinElevation) is None,
    {
        self.extreme(Extreme::MinElevation)
    }

    /// Returns the point of maximum elevation across all the stages.
    pub fn max_elevation(&self) -> (found: Option<&EnrichedTrackPoint>)
        requires
            self@.len() > 0,
        ensures
            found matches Some(p) ==> extreme_of(self@, Extreme::MaxElevation) == Some(*p),
            found is None ==> extreme_of(self@, Extreme::MaxElevation) is None,
    {
        self.extreme(Extreme::MaxElevation)
    }

    /// Returns the point of maximum speed across all the stages.
    pub fn max_speed(&self) -> (found: Option<&EnrichedTrackPoint>)
        requires
            self@.len() > 0,
        ensures
            found matches Some(p) ==> extreme_of(self@, Extreme::MaxSpeed) == Some(*p),
            found is None ==> extreme_of(self@, Extreme::MaxSpeed) is None,
    {
        self.extreme(Extreme::MaxSpeed)
    }

    /// Returns the point of maximum heart rate across all the stages.
    pub fn max_heart_rate(&self) -> (found: Option<&EnrichedTrackPoint>)
        ensures
            found matches Some(p) ==> extreme_of(self@, Extreme::MaxHeartRate) == Some(*p),
            found is None ==> extreme_of(self@, Extreme::MaxHeartRate) is None,
    {
        self.extreme(Extreme::MaxHeartRate)
    }

    /// Returns the point of minimum temperature across all the stages.
    pub fn min_temperature(&self) -> (found: Option<&EnrichedTrackPoint>)
        ensures
            found matches Some(p) ==> extreme_of(self@, Extreme::MinTemperature) == Some(*p),
            found is None ==> extreme_of(self@, Extreme::MinTemperature) is None,
    {
        self.extreme(Extreme::MinTemperature)
    }

    /// Returns the point of maximum temperature across all the stages.
    pub fn max_temperature(&self) -> (found: Option<&EnrichedTrackPoint>)
        ensures
            found matches Some(p) ==> extreme_of(self@, Extreme::MaxTemperature) == Some(*p),
            found is None ==> extreme_of(self@, Extreme::MaxTemperature) is None,
    {
        self.extreme(Extreme::MaxTemperature)
    }

    /// Returns the total moving time as a share of the total duration across
    /// all the stages.
    pub fn moving_percent(&self) -> (percent: Option<i64>)
        requires
            self@.len() > 0,
        ensures
            percent == share(self.spec_total_moving_time(), self.spec_duration()),
    {
        portion(self.total_moving_time(), self.duration())
    }

    /// Returns the total time at controls as a share of the total duration
    /// across all the stages: what the share of the moving time leaves of
    /// the whole.
    pub fn controlling_percent(&self) -> (percent: Option<i64>)
        requires
            self@.len() > 0,
        ensures
            percent == checked_difference(
                Some(1000i64),
                share(self.spec_total_moving_time(), self.spec_duration()),
            ),
    {
        difference(Some(1000), self.moving_percent())
    }
}

/// The point that a stage holds as its own extreme.
fn held(stage: &Stage, which: Extreme) -> (p: Option<&EnrichedTrackPoint>)
    ensures
        p matches Some(q) ==> extreme_point(*stage, which) == Some(*q),
        p is None ==> extreme_point(*stage, which) is None,
{
    match which {
        Extreme::MinElevation => stage.min_elevation.as_ref(),
        Extreme::MaxElevation => stage.max_elevation.as_ref(),
        Extreme::MaxSpeed => stage.max_speed.as_ref(),
        Extreme::MaxHeartRate => stage.max_heart_rate.as_ref(),
        Extreme::MinTemperature => stage.min_air_temp.as_ref(),
        Extreme::MaxTemperature => stage.max_air_temp.as_ref(),
    }
}

/// The value by which a point is ranked.
fn ranked(p: &EnrichedTrackPoint, which: Extreme) -> (r: i128)
    ensures
        r == rank(*p, which),
{
    match which {
        Extreme::MinElevation | Extreme::MaxElevation => match p.ele {
            Some(v) => v as i128,
            None => i64::MIN as i128 - 1,
        },
        Extreme::MaxSpeed => match p.speed_kmh {
            Some(v) => v as i128,
            None => -1,
        },
        Extreme::MaxHeartRate => match p.heart_rate {
            Some(v) => v as i128,
            None => -1,
        },
        Extreme::MinTemperature | Extreme::MaxTemperature => match p.air_temp {
            Some(v) => v as i128,
            None => i64::MIN as i128 - 1,
        },
    }
}

/// Does the new rank take the place of the one held?
fn beats(which: Extreme, new: i128, held_rank: i128) -> (b: bool)
    ensures
        b == displaces(which, new as int, held_rank as int),
{
    match which {
        Extreme::MinElevation | Extreme::MinTemperature => new < held_rank,
        Extreme::MaxElevation | Extreme::MaxSpeed => new > held_rank,
        Extreme::MaxHeartRate | Extreme::MaxTemperature => new >= held_rank,
    }
}

/// A part as a share of a whole, in thousandths.
fn portion(part: Option<i64>, whole: Option<i64>) -> (s: Option<i64>)
    ensures
        s == share(part, whole),
{
    match (part, whole) {
        (Some(p), Some(w)) => {
            if w <= 0 {
                return None;
            }
            let scaled: i128 = (p as i128) * 1000;
            let quotient: i128 = if scaled >= 0 {
                ((scaled as u128) / (w as u128)) as i128
            } else {
                -((((-scaled) as u128) / (w as u128)) as i128)
            };
            if quotient < i64::MIN as i128 || quotient > i64::MAX as i128 {
                None
            } else {
                Some(quotient as i64)
            }
        },
        _ => None,
    }
}

/// The indexes are in ascending order.
pub open spec fn ascending(idxs: Seq<usize>) -> bool {
    forall|i: int, j: int| 0 <= i <= j < idxs.len() ==> idxs[i] <= idxs[j]
}

/// `idxs` with the index of `point`, where there is a point.
pub open spec fn with_index(idxs: Seq<usize>, point: Option<EnrichedTrackPoint>) -> Seq<usize> {
    match point {
        Some(p) => idxs.push(p.index),
        None => idxs,
    }
}

/// The indexes of the points that a stage picks out: the first point of the
/// track, the start and the end of the stage, and its points of lowest and
/// of highest elevation, of highest speed, of highest heart rate and of
/// highest temperature, as far as it has them.
pub open spec fn highlights(stage: Stage) -> Seq<usize> {
    with_index(
        with_index(
            with_index(
                with_index(
                    with_index(
                        seq![stage.track_start_point.index, stage.start.index, stage.end.index],
                        stage.min_elevation,
                    ),
                    stage.max_elevation,
                ),
                stage.max_speed,
            ),
            stage.max_heart_rate,
        ),
        stage.max_air_temp,
    )
}

/// The indexes that the first `n` stages pick out.
pub open spec fn all_highlights(stages: Seq<Stage>, n: int) -> Set<usize>
    decreases n,
{
    if n <= 0 {
        Set::empty()
    } else {
        all_highlights(stages, n - 1).union(highlights(stages[n - 1]).to_set())
    }
}

/// Puts an index into a list in ascending order, at its place.
fn insert_in_order(idxs: &mut Vec<usize>, idx: usize)
    requires
        ascending(old(idxs)@),
    ensures
        ascending(final(idxs)@),
        final(idxs)@.to_multiset() == old(idxs)@.to_multiset().insert(idx),
{
    broadcast use vstd::seq_lib::group_to_multiset_ensures;

    let n: usize = idxs.len();
    let mut at: usize = 0;
    while at < n && idxs[at] <= idx
        invariant
            n == idxs@.len(),
            at <= n,
            idxs@ == old(idxs)@,
            forall|k: int| 0 <= k < at ==> idxs@[k] <= idx,
        decreases n - at,
    {
        at += 1;
    }
    idxs.insert(at, idx);
    proof {
        vstd::seq_lib::to_multiset_insert(old(idxs)@, at as int, idx);
    }
}

/// Puts the index of `point` into the list, where there is a point.
fn insert_point(idxs: &mut Vec<usize>, point: &Option<EnrichedTrackPoint>, Ghost(so_far): Ghost<
    Seq<usize>,
>)
    requires
        ascending(old(idxs)@),
        old(idxs)@.to_multiset() == so_far.to_multiset(),
    ensures
        ascending(final(idxs)@),
        final(idxs)@.to_multiset() == with_index(so_far, *point).to_multiset(),
{
    broadcast use vstd::seq_lib::group_to_multiset_ensures;

    match point {
        Some(p) => insert_in_order(idxs, p.index),
        None => {},
    }
}

impl Stage {
    /// Returns the indexes of all the points that have been picked out as
    /// special in some way, such as the point of lowest elevation, in
    /// ascending order. An index that is picked out twice comes twice.
    pub fn highlighted_trackpoints(&self) -> (idxs: Vec<usize>)
        ensures
            ascending(idxs@),
            idxs@.to_multiset() == highlights(*self).to_multiset(),
    {
        broadcast use vstd::seq_lib::group_to_multiset_ensures;

        let mut idxs: Vec<usize> = Vec::new();
        let ghost s0 = Seq::<usize>::empty();
        insert_in_order(&mut idxs, self.track_start_point.index);
        let ghost s1 = s0.push(self.track_start_point.index);
        insert_in_order(&mut idxs, self.start.index);
        let ghost s2 = s1.push(self.start.index);
        insert_in_order(&mut idxs, self.end.index);
        let ghost s3 = s2.push(self.end.index);
        proof {
            assert(s3 =~= seq![self.track_start_point.index, self.start.index, self.end.index]);
        }
        insert_point(&mut idxs, &self.min_elevation, Ghost(s3));
        let ghost s4 = with_index(s3, self.min_elevation);
        insert_point(&mut idxs, &self.max_elevation, Ghost(s4));
        let ghost s5 = with_index(s4, self.max_elevation);
        insert_point(&mut idxs, &self.max_speed, Ghost(s5));
        let ghost s6 = with_index(s5, self.max_speed);
        insert_point(&mut idxs, &self.max_heart_rate, Ghost(s6));
        let ghost s7 = with_index(s6, self.max_heart_rate);
        insert_point(&mut idxs, &self.max_air_temp, Ghost(s7));
        idxs
    }
}

impl StageList {
    /// Returns the indexes of all the points that the stages pick out as
    /// special in some way.
    pub fn highlighted_trackpoints(&self) -> (idxs: HashSet<usize>)
        ensures
            idxs@ == all_highlights(self@, self@.len() as int),
    {
        broadcast use vstd::std_specs::hash::group_hash_axioms;
        broadcast use vstd::seq_lib::group_to_multiset_ensures;

        let mut idxs: HashSet<usize> = HashSet::new();
        let n: usize = self.stages.len();
        let mut i: usize = 0;
        while i < n
            invariant
                n == self.stages@.len(),
                i <= n,
                idxs@ == all_highlights(self.stages@, i as int),
            decreases n - i,
        {
            let picked: Vec<usize> = self.stages[i].highlighted_trackpoints();
            let ghost before = idxs@;
            let m: usize = picked.len();
            let mut j: usize = 0;
            proof {
                assert(before.union(picked@.take(0).to_set()) =~= before);
            }
            while j < m
                invariant
                    m == picked@.len(),
                    j <= m,
                    idxs@ == before.union(picked@.take(j as int).to_set()),
                decreases m - j,
            {
                idxs.insert(picked[j]);
                proof {
                    let shorter = picked@.take(j as int);
                    let longer = picked@.take(j + 1);
                    assert(longer =~= shorter.push(picked@[j as int]));
                    assert forall|x: usize| longer.to_set().contains(x) <==> (
                    shorter.to_set().contains(x) || x == picked@[j as int]) by {
                        if longer.contains(x) {
                            let k = choose|k: int| 0 <= k < longer.len() && longer[k] == x;
                            if k < j {
                                assert(shorter[k] == x);
                            }
                        }
                        if shorter.contains(x) {
                            let k = choose|k: int| 0 <= k < shorter.len() && shorter[k] == x;
                            assert(longer[k] == x);
                        }
                        assert(longer[j as int] == picked@[j as int]);
                    }
                    assert(idxs@ =~= before.union(longer.to_set()));
                }
                j += 1;
            }
            proof {
                assert(picked@.take(m as int) =~= picked@);
                let wanted = highlights(self.stages@[i as int]);
                picked@.to_multiset_ensures();
                wanted.to_multiset_ensures();
                assert forall|x: usize| picked@.to_set().contains(x) <==> wanted.to_set().contains(
                    x,
                ) by {
                    assert(picked@.contains(x) <==> picked@.to_multiset().count(x) > 0);
                    assert(wanted.contains(x) <==> wanted.to_multiset().count(x) > 0);
                }
                assert(picked@.to_set() =~= wanted.to_set());
            }
            i += 1;
        }
        idxs
    }
}

/// `lookup` can be asked for the name of any place and answers each
/// question in one way only.
pub open spec fn names_places<G: Fn(Position) -> Option<String>>(lookup: &G) -> bool {
    &&& forall|p: Position| call_requires(*lookup, (p,))
    &&& forall|p: Position, a: Option<String>, b: Option<String>|
        call_ensures(*lookup, (p,), a) && call_ensures(*lookup, (p,), b) ==> a == b
}

/// The name that `lookup` gives the place at `p`, if it gives one.
pub open spec fn place_name<G: Fn(Position) -> Option<String>>(lookup: &G, p: Position) -> Option<
    Seq<char>,
> {
    text_of(choose|name: Option<String>| call_ensures(*lookup, (p,), name))
}

/// The description of a stage by the names of places: for a control the
/// name of where it is, for a moving stage "Name1 to Name2" from the names
/// of where it starts and where it ends. There is none where a name is
/// missing.
pub open spec fn stage_description<G: Fn(Position) -> Option<String>>(
    stage: Stage,
    lookup: &G,
) -> Option<Seq<char>> {
    match stage.stage_type {
        StageType::Control => place_name(lookup, stage.start.position()),
        StageType::Moving => match (
            place_name(lookup, stage.start.position()),
            place_name(lookup, stage.end.position()),
        ) {
            (Some(from), Some(to)) => Some(from + " to "@ + to),
            _ => None,
        },
    }
}

impl Stage {
    /// Reverse geocodes the stage: looks up the names of places from its
    /// coordinates and returns a description made of them.
    pub fn reverse_geocode<G: Fn(Position) -> Option<String>>(&self, lookup: &G) -> (description:
        Option<String>)
        requires
            names_places(lookup),
        ensures
            text_of(description) == stage_description(*self, lookup),
    {
        let start_desc: Option<String> = lookup(self.start.as_position());
        match self.stage_type {
            StageType::Moving => {
                let end_desc: Option<String> = lookup(self.end.as_position());
                match (start_desc, end_desc) {
                    (Some(mut sd), Some(ed)) => {
                        sd.append(" to ");
                        sd.append(ed.as_str());
                        Some(sd)
                    },
                    _ => None,
                }
            },
            StageType::Control => start_desc,
        }
    }
}

} // verus!
